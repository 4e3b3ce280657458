//! The configured shape of one program: its command, replica count and
//! restart policy, together with the live replicas of its group.

use vstd::prelude::*;

verus! {

use crate::childprocess::{
    spec_apply, spec_is_terminal, spec_sample_ok, spec_slot_unpinned, spec_step, ChildExitStatus,
    ChildProcess, ProgramState, SpawnOutcome,
};
use crate::error::Error;
use vstd::pervasive::VecAdditionalExecFns;
use vstd::string::StrSliceExecFns;
use vstd::string::StringExecFns;

/// Restart policy applied when a replica exits without being asked to stop.
#[derive(Debug, Clone, Copy, PartialEq, Eq, Structural)]
pub enum AutoRestart {
    /// Restart on every exit.
    Always,
    /// Never restart; the replica waits for an operator.
    Never,
    /// Restart only on exit codes outside the expected set.
    Unexpected,
}

/// Where a replica's standard output or standard error is sent.
#[derive(Debug, Clone)]
pub enum Output {
    /// Append to the file at this path.
    File(String),
    /// Inherit the numbered file descriptor.
    Fd(u16),
    /// A supervisor-chosen log file under the standard log directory,
    /// derived from the program name and the replica index.
    Auto,
}

/// The signal sent to a replica for a graceful stop.
#[derive(Debug, Clone, Copy, PartialEq, Eq, Structural)]
pub enum StopSignal {
    /// Ask the process to quit (signal number 3).
    Exit,
    /// The first user-defined signal (signal number 10).
    Usr1,
    /// The termination signal (signal number 15).
    Term,
}

impl StopSignal {
    /// The operating-system signal number this stop signal stands for.
    pub fn signal_number(&self) -> (r: i32)
        ensures
            r == spec_signal_number(*self),
    {
        match self {
            StopSignal::Exit => 3,
            StopSignal::Usr1 => 10,
            StopSignal::Term => 15,
        }
    }
}

pub open spec fn spec_signal_number(s: StopSignal) -> i32 {
    match s {
        StopSignal::Exit => 3,
        StopSignal::Usr1 => 10,
        StopSignal::Term => 15,
    }
}

/// One configured program and the live replicas of its group.
#[derive(Debug)]
pub struct Program {
    /// Unique key of the program within the registry.
    pub name: String,
    /// The executable and its argument vector.
    pub cmd: (String, Vec<String>),
    /// Desired replica count.
    pub num_procs: u8,
    /// Whether replicas start when the configuration is loaded.
    pub auto_start: bool,
    /// Restart policy for unexpected exits.
    pub auto_restart: AutoRestart,
    /// Exit codes treated as expected, clean exits.
    pub exitcodes: Vec<u8>,
    /// Restart attempts granted before a replica is declared Fatal.
    pub start_retries: u8,
    /// Seconds a fresh replica must stay up for its start to count.
    pub start_secs: u16,
    /// Signal sent for a graceful stop.
    pub stop_signal: StopSignal,
    /// Grace seconds after the stop signal before escalation to kill.
    pub stop_time: u16,
    /// Environment entries merged into the child environment.
    pub env: Option<Vec<(String, String)>>,
    /// Working directory of each replica.
    pub working_dir: String,
    /// File-creation mask applied while spawning, as an octal string.
    pub umask: String,
    /// Destination of the replicas' standard output.
    pub stdout: Output,
    /// Destination of the replicas' standard error.
    pub stderr: Output,
    /// The live replica slots, in replica-index order.
    pub children: Vec<ChildProcess>,
}

/// Who asked for a start: loading a configuration, or an operator command.
#[derive(Debug, Clone, Copy, PartialEq, Eq, Structural)]
pub enum Origin {
    /// The start comes from loading a configuration; `auto_start` gates it.
    Config,
    /// The start comes from an operator command and is always honored.
    CLI,
}

/// Equality of the two output destinations, comparing file paths by their
/// characters.
pub open spec fn spec_output_eq(a: Output, b: Output) -> bool {
    match (a, b) {
        (Output::File(x), Output::File(y)) => x@ == y@,
        (Output::Fd(x), Output::Fd(y)) => x == y,
        (Output::Auto, Output::Auto) => true,
        _ => false,
    }
}

/// Whether two configurations agree on every structural field: a difference
/// in any of these forces a full teardown and respawn on reload. Only the
/// desired replica count and the two timing budgets may differ.
pub open spec fn spec_structural_eq(a: Program, b: Program) -> bool {
    &&& a.name@ == b.name@
    &&& a.cmd.0@ == b.cmd.0@
    &&& a.cmd.1.deep_view() == b.cmd.1.deep_view()
    &&& a.auto_restart == b.auto_restart
    &&& a.exitcodes@ == b.exitcodes@
    &&& a.start_retries == b.start_retries
    &&& a.auto_start == b.auto_start
    &&& a.stop_signal == b.stop_signal
    &&& spec_env_eq(a.env, b.env)
    &&& a.working_dir@ == b.working_dir@
    &&& a.umask@ == b.umask@
    &&& spec_output_eq(a.stdout, b.stdout)
    &&& spec_output_eq(a.stderr, b.stderr)
}

/// Whether two program values carry the same configuration, replica slots
/// aside.
pub open spec fn spec_same_config(a: Program, b: Program) -> bool {
    &&& a.name == b.name
    &&& a.cmd == b.cmd
    &&& a.num_procs == b.num_procs
    &&& a.auto_start == b.auto_start
    &&& a.auto_restart == b.auto_restart
    &&& a.exitcodes == b.exitcodes
    &&& a.start_retries == b.start_retries
    &&& a.start_secs == b.start_secs
    &&& a.stop_signal == b.stop_signal
    &&& a.stop_time == b.stop_time
    &&& a.env == b.env
    &&& a.working_dir == b.working_dir
    &&& a.umask == b.umask
    &&& a.stdout == b.stdout
    &&& a.stderr == b.stderr
}

/// Compares one element of two string vectors, by characters.
fn vec_el_eq(a: &Vec<String>, b: &Vec<String>, i: usize) -> (r: bool)
    requires
        i < a@.len(),
        i < b@.len(),
    ensures
        r == (a.deep_view()[i as int] == b.deep_view()[i as int]),
{
    let r = a[i] == b[i];
    proof {
        assert(a.deep_view()[i as int] == a@[i as int]@);
        assert(b.deep_view()[i as int] == b@[i as int]@);
    }
    r
}

/// True when the two string vectors hold the same strings.
fn eq_str_vec(a: &Vec<String>, b: &Vec<String>) -> (r: bool)
    ensures
        r == (a.deep_view() == b.deep_view()),
{
    if a.len() != b.len() {
        proof {
            assert(a.deep_view().len() == a@.len());
            assert(b.deep_view().len() == b@.len());
        }
        return false;
    }
    let mut i: usize = 0;
    while i < a.len()
        invariant
            a@.len() == b@.len(),
            i <= a@.len(),
            forall|k: int| 0 <= k < i ==> a.deep_view()[k] == b.deep_view()[k],
        decreases a@.len() - i,
    {
        if !vec_el_eq(a, b, i) {
            proof {
                assert(a.deep_view()[i as int] != b.deep_view()[i as int]);
            }
            return false;
        }
        i += 1;
    }
    proof {
        assert(a.deep_view() =~= b.deep_view());
    }
    true
}

/// True when the two byte vectors hold the same bytes.
fn eq_u8_vec(a: &Vec<u8>, b: &Vec<u8>) -> (r: bool)
    ensures
        r == (a@ == b@),
{
    if a.len() != b.len() {
        return false;
    }
    let mut i: usize = 0;
    while i < a.len()
        invariant
            a@.len() == b@.len(),
            i <= a@.len(),
            forall|k: int| 0 <= k < i ==> a@[k] == b@[k],
        decreases a@.len() - i,
    {
        if a[i] != b[i] {
            return false;
        }
        i += 1;
    }
    proof {
        assert(a@ =~= b@);
    }
    true
}

/// The environment overlay read as a mapping from key to value: the last
/// entry for a key governs, as overlaying entries onto a child environment
/// does.
pub open spec fn spec_env_map(e: Seq<(String, String)>) -> Map<Seq<char>, Seq<char>>
    decreases e.len(),
{
    if e.len() == 0 {
        Map::empty()
    } else {
        spec_env_map(e.drop_last()).insert(e.last().0@, e.last().1@)
    }
}

/// Equality of two environment overlays as mappings, key for key; an absent
/// overlay equals only an absent one.
pub open spec fn spec_env_eq(a: Option<Vec<(String, String)>>, b: Option<Vec<(String, String)>>) -> bool {
    match (a, b) {
        (None, None) => true,
        (Some(x), Some(y)) => spec_env_map(x@) == spec_env_map(y@),
        _ => false,
    }
}

/// The mapping holds exactly the keys that occur in the overlay.
pub proof fn lemma_env_map_dom(e: Seq<(String, String)>, k: Seq<char>)
    ensures
        spec_env_map(e).contains_key(k) <==> exists|i: int|
            0 <= i < e.len() && (#[trigger] e[i]).0@ == k,
    decreases e.len(),
{
    if e.len() == 0 {
    } else {
        lemma_env_map_dom(e.drop_last(), k);
        if e.last().0@ == k {
            assert((#[trigger] e[e.len() - 1]).0@ == k);
        } else {
            if exists|i: int| 0 <= i < e.drop_last().len() && (#[trigger] e.drop_last()[i]).0@ == k {
                let i = choose|i: int|
                    0 <= i < e.drop_last().len() && (#[trigger] e.drop_last()[i]).0@ == k;
                assert(e[i] == e.drop_last()[i]);
            }
            if exists|i: int| 0 <= i < e.len() && (#[trigger] e[i]).0@ == k {
                let i = choose|i: int| 0 <= i < e.len() && (#[trigger] e[i]).0@ == k;
                assert(i < e.len() - 1);
                assert(e.drop_last()[i] == e[i]);
            }
        }
    }
}

/// The value a key maps to is the one of its last entry.
pub proof fn lemma_env_map_last(e: Seq<(String, String)>, i: int)
    requires
        0 <= i < e.len(),
        forall|j: int| i < j < e.len() ==> (#[trigger] e[j]).0@ != e[i].0@,
    ensures
        spec_env_map(e).contains_key(e[i].0@),
        spec_env_map(e)[e[i].0@] == e[i].1@,
    decreases e.len(),
{
    if i == e.len() - 1 {
    } else {
        assert((#[trigger] e[e.len() - 1]).0@ != e[i].0@);
        assert forall|j: int| i < j < e.drop_last().len() implies (#[trigger] e.drop_last()[j]).0@
            != e.drop_last()[i].0@ by {
            assert(e.drop_last()[j] == e[j]);
            assert(e.drop_last()[i] == e[i]);
        }
        lemma_env_map_last(e.drop_last(), i);
        assert(e.drop_last()[i] == e[i]);
    }
}

/// The position of the last entry for the given key, if any.
fn env_last_index(e: &Vec<(String, String)>, key: &String) -> (r: Option<usize>)
    ensures
        match r {
            Some(i) => i < e@.len() && e@[i as int].0@ == key@ && (forall|j: int|
                i < j < e@.len() ==> (#[trigger] e@[j]).0@ != key@),
            None => forall|j: int| 0 <= j < e@.len() ==> (#[trigger] e@[j]).0@ != key@,
        },
{
    let mut j: usize = e.len();
    while j > 0
        invariant
            j <= e@.len(),
            forall|m: int| j <= m < e@.len() ==> (#[trigger] e@[m]).0@ != key@,
        decreases j,
    {
        j -= 1;
        if e[j].0 == *key {
            return Some(j);
        }
    }
    None
}

/// True when the two overlays agree as mappings.
fn env_maps_eq(x: &Vec<(String, String)>, y: &Vec<(String, String)>) -> (r: bool)
    ensures
        r == (spec_env_map(x@) == spec_env_map(y@)),
{
    let ghost mx = spec_env_map(x@);
    let ghost my = spec_env_map(y@);
    let mut i: usize = 0;
    while i < x.len()
        invariant
            i <= x@.len(),
            mx == spec_env_map(x@),
            my == spec_env_map(y@),
            forall|m: int|
                0 <= m < i ==> my.contains_key((#[trigger] x@[m]).0@) && my[x@[m].0@]
                    == mx[x@[m].0@],
        decreases x@.len() - i,
    {
        let key = &x[i].0;
        let xi = match env_last_index(x, key) {
            Some(v) => v,
            None => {
                proof {
                    assert(x@[i as int].0@ == key@);
                    assert(false);
                }
                return false;
            },
        };
        proof {
            lemma_env_map_last(x@, xi as int);
        }
        match env_last_index(y, key) {
            None => {
                proof {
                    lemma_env_map_dom(y@, key@);
                }
                return false;
            },
            Some(yi) => {
                proof {
                    lemma_env_map_last(y@, yi as int);
                }
                if !(x[xi].1 == y[yi].1) {
                    return false;
                }
            },
        }
        i += 1;
    }
    let mut n: usize = 0;
    while n < y.len()
        invariant
            n <= y@.len(),
            mx == spec_env_map(x@),
            my == spec_env_map(y@),
            forall|m: int|
                0 <= m < x@.len() ==> my.contains_key((#[trigger] x@[m]).0@) && my[x@[m].0@]
                    == mx[x@[m].0@],
            forall|m: int| 0 <= m < n ==> mx.contains_key((#[trigger] y@[m]).0@),
        decreases y@.len() - n,
    {
        match env_last_index(x, &y[n].0) {
            None => {
                proof {
                    lemma_env_map_dom(x@, y@[n as int].0@);
                    lemma_env_map_dom(y@, y@[n as int].0@);
                }
                return false;
            },
            Some(_) => {
                proof {
                    lemma_env_map_dom(x@, y@[n as int].0@);
                }
            },
        }
        n += 1;
    }
    proof {
        assert forall|k: Seq<char>| #[trigger] mx.contains_key(k) implies my.contains_key(k)
            && my[k] == mx[k] by {
            lemma_env_map_dom(x@, k);
            let m = choose|m: int| 0 <= m < x@.len() && (#[trigger] x@[m]).0@ == k;
            assert(my.contains_key(x@[m].0@) && my[x@[m].0@] == mx[x@[m].0@]);
        }
        assert forall|k: Seq<char>| #[trigger] my.contains_key(k) implies mx.contains_key(k) by {
            lemma_env_map_dom(y@, k);
            let m = choose|m: int| 0 <= m < y@.len() && (#[trigger] y@[m]).0@ == k;
            assert(mx.contains_key(y@[m].0@));
        }
        assert(mx =~= my);
    }
    true
}

/// True when the two environment overlays are the same mapping.
fn eq_env(a: &Option<Vec<(String, String)>>, b: &Option<Vec<(String, String)>>) -> (r: bool)
    ensures
        r == spec_env_eq(*a, *b),
{
    match (a, b) {
        (None, None) => true,
        (Some(x), Some(y)) => env_maps_eq(x, y),
        _ => false,
    }
}

/// Exec mirror of [`spec_output_eq`].
fn eq_output(a: &Output, b: &Output) -> (r: bool)
    ensures
        r == spec_output_eq(*a, *b),
{
    match (a, b) {
        (Output::File(x), Output::File(y)) => *x == *y,
        (Output::Fd(x), Output::Fd(y)) => *x == *y,
        (Output::Auto, Output::Auto) => true,
        _ => false,
    }
}

/// A replica slot carrying no process and no history; stands in a vector
/// slot while its real value is worked on.
fn placeholder_child() -> (r: ChildProcess)
    ensures
        r == spec_placeholder_child(),
{
    ChildProcess {
        child: None,
        state: ProgramState::Error,
        exit_status: ChildExitStatus::NonExistent,
        start_secs: None,
        end_time: None,
        restart_count: 0,
    }
}

pub open spec fn spec_placeholder_child() -> ChildProcess {
    ChildProcess {
        child: None,
        state: ProgramState::Error,
        exit_status: ChildExitStatus::NonExistent,
        start_secs: None,
        end_time: None,
        restart_count: 0,
    }
}

/// Whether any replica in the group holds the given state.
pub open spec fn spec_has_state(cs: Seq<ChildProcess>, s: ProgramState) -> bool {
    exists|i: int| 0 <= i < cs.len() && cs[i].state == s
}

/// The dominant state of a group, if any replica has reached one of the four
/// states that force their siblings along, in priority order
/// Killed > Fatal > Stopped > Pending.
pub open spec fn spec_dominant(cs: Seq<ChildProcess>) -> Option<ProgramState> {
    if spec_has_state(cs, ProgramState::Killed) {
        Some(ProgramState::Killed)
    } else if spec_has_state(cs, ProgramState::Fatal) {
        Some(ProgramState::Fatal)
    } else if spec_has_state(cs, ProgramState::Stopped) {
        Some(ProgramState::Stopped)
    } else if spec_has_state(cs, ProgramState::Pending) {
        Some(ProgramState::Pending)
    } else {
        None
    }
}

/// A replica promoted to the group's dominant state. For every dominant
/// state but Pending the promotion kills any attached process, recording the
/// signal time.
pub open spec fn spec_promote(c: ChildProcess, d: ProgramState, now: u64) -> ChildProcess {
    ChildProcess {
        state: d,
        end_time: if !(d is Pending) && c.child is Some { Some(now) } else { c.end_time },
        ..c
    }
}

/// The group after reconciliation: untouched when no replica reached a
/// dominant state, and otherwise every replica promoted to the single
/// highest-priority dominant state present.
pub open spec fn spec_reconcile(cs: Seq<ChildProcess>, now: u64) -> Seq<ChildProcess> {
    match spec_dominant(cs) {
        None => cs,
        Some(d) => Seq::new(cs.len(), |i: int| spec_promote(cs[i], d, now)),
    }
}

/// A freshly pushed replica slot: a spawned child starts in Starting with a
/// clean history, and a failed spawn occupies the slot in Backoff with one
/// attempt already counted, so that later ticks retry it.
pub open spec fn spec_new_child(outcome: SpawnOutcome, now: u64) -> ChildProcess {
    match outcome {
        SpawnOutcome::Attached(pid) => ChildProcess {
            child: Some(pid),
            state: ProgramState::Starting,
            exit_status: ChildExitStatus::Running,
            start_secs: Some(now),
            end_time: None,
            restart_count: 0,
        },
        SpawnOutcome::Failed => ChildProcess {
            child: None,
            state: ProgramState::Backoff,
            exit_status: ChildExitStatus::NonExistent,
            start_secs: Some(now),
            end_time: None,
            restart_count: 1,
        },
    }
}

/// A replica sent into a graceful stop at `now`.
pub open spec fn spec_stop_child(c: ChildProcess, now: u64) -> ChildProcess {
    ChildProcess {
        state: ProgramState::Stopping,
        end_time: if c.child is Some { Some(now) } else { c.end_time },
        ..c
    }
}

/// A replica sent into a restart at `now`.
pub open spec fn spec_restart_child(c: ChildProcess, now: u64) -> ChildProcess {
    ChildProcess {
        state: ProgramState::Restarting,
        end_time: if c.child is Some { Some(now) } else { c.end_time },
        ..c
    }
}

/// What one tick did to one replica of a group: a terminal replica stayed
/// untouched and asked for nothing, and any other stepped under some sampled
/// status that was not a wait error, asking for a respawn exactly when the
/// step demanded one.
pub open spec fn spec_checked_ok(pre: ChildProcess, cfg: Program, post: ChildProcess, resp: bool, now: u64) -> bool {
    if spec_is_terminal(pre.state) {
        post == pre && resp == false
    } else {
        exists|s: ChildExitStatus|
            {
                &&& spec_sample_ok(pre, s)
                &&& !(s is WaitError)
                &&& post == #[trigger] spec_apply(pre, cfg, s, now)
                &&& resp == spec_step(pre, cfg, s, now).respawn
            }
    }
}

/// What one tick did to one replica, for some respawn answer.
pub open spec fn spec_replica_checked(pre: ChildProcess, cfg: Program, post: ChildProcess, now: u64) -> bool {
    exists|resp: bool| spec_checked_ok(pre, cfg, post, resp, now)
}

/// Whether any replica of the group is unpinned: a tick over it must consult
/// the operating system, so only such a group can meet a wait error.
pub open spec fn spec_has_unpinned_slot(p: Program) -> bool {
    exists|i: int| 0 <= i < p.children@.len() && spec_slot_unpinned(#[trigger] p.children@[i])
}

/// What a failed group pass did: the replicas before some unpinned slot were
/// checked, that slot's wait failed — its error is the reported one and the
/// failure is recorded on the slot — and everything after it is untouched.
pub open spec fn spec_group_check_failed(pre: Program, post: Program, e: Error, now: u64) -> bool {
    exists|j: int, s: ChildExitStatus|
        {
            &&& 0 <= j < pre.children@.len()
            &&& spec_slot_unpinned(pre.children@[j])
            &&& s is WaitError
            &&& spec_sample_ok(pre.children@[j], s)
            &&& post.children@[j] == #[trigger] spec_apply(pre.children@[j], pre, s, now)
            &&& (s matches ChildExitStatus::WaitError(m) && e == Error::WaitError(m))
            &&& (forall|k: int|
                0 <= k < j ==> spec_replica_checked(
                    pre.children@[k],
                    pre,
                    #[trigger] post.children@[k],
                    now,
                ))
            &&& (forall|k: int|
                j < k < pre.children@.len() ==> #[trigger] post.children@[k] == pre.children@[k])
        }
}

/// A failed group pass pinpoints an unpinned slot: a group with none — every
/// replica terminal, or with no child attached, or with its exit already
/// recorded — is owed a successful pass.
pub proof fn lemma_failed_group_has_unpinned(pre: Program, post: Program, e: Error, now: u64)
    requires
        spec_group_check_failed(pre, post, e, now),
    ensures
        spec_has_unpinned_slot(pre),
{
    let (j, s) = choose|j: int, s: ChildExitStatus|
        {
            &&& 0 <= j < pre.children@.len()
            &&& spec_slot_unpinned(pre.children@[j])
            &&& s is WaitError
            &&& spec_sample_ok(pre.children@[j], s)
            &&& post.children@[j] == #[trigger] spec_apply(pre.children@[j], pre, s, now)
            &&& (s matches ChildExitStatus::WaitError(m) && e == Error::WaitError(m))
            &&& (forall|k: int|
                0 <= k < j ==> spec_replica_checked(
                    pre.children@[k],
                    pre,
                    #[trigger] post.children@[k],
                    now,
                ))
            &&& (forall|k: int|
                j < k < pre.children@.len() ==> #[trigger] post.children@[k] == pre.children@[k])
        };
    assert(spec_slot_unpinned(pre.children@[j]));
}

/// The replica indices asking for a respawn, in increasing order.
pub open spec fn spec_plan(resp: Seq<bool>) -> Seq<usize>
    decreases resp.len(),
{
    if resp.len() == 0 {
        Seq::empty()
    } else {
        spec_plan(resp.drop_last()) + (if resp.last() {
            seq![(resp.len() - 1) as usize]
        } else {
            Seq::<usize>::empty()
        })
    }
}

/// Appending one answer to the respawn record extends the plan by that
/// replica's index exactly when the answer asks for a respawn.
proof fn lemma_spec_plan_push(resp: Seq<bool>, b: bool)
    requires
        resp.len() < usize::MAX,
    ensures
        spec_plan(resp.push(b)) == spec_plan(resp) + (if b {
            seq![resp.len() as usize]
        } else {
            Seq::<usize>::empty()
        }),
{
    assert(resp.push(b).drop_last() =~= resp);
    assert(resp.push(b).last() == b);
}

/// How many children a start must spawn for this group: none when the start
/// comes from a configuration load and the program does not auto-start, and
/// otherwise as many as are missing up to the desired replica count.
pub open spec fn spec_spawns_needed(p: Program, origin: Origin) -> int {
    if origin is Config && !p.auto_start {
        0
    } else if p.children@.len() >= p.num_procs {
        0
    } else {
        p.num_procs - p.children@.len()
    }
}

impl Program {
    /// Reconciles the group after a tick: if any replica reached a dominant
    /// terminal state, every replica is promoted to the highest-priority one
    /// present, and for every dominant state but Pending each attached child
    /// is killed. Returns the dominant state that drove the promotion, if
    /// any.
    pub fn reconcile_state(&mut self, now: u64) -> (dom: Option<ProgramState>)
        ensures
            final(self).children@ == spec_reconcile(old(self).children@, now),
            spec_same_config(*final(self), *old(self)),
            dom == spec_dominant(old(self).children@),
    {
        let mut killed = false;
        let mut fatal = false;
        let mut stopped = false;
        let mut pending = false;
        let mut i: usize = 0;
        while i < self.children.len()
            invariant
                *self == *old(self),
                i <= self.children@.len(),
                killed == spec_has_state(self.children@.take(i as int), ProgramState::Killed),
                fatal == spec_has_state(self.children@.take(i as int), ProgramState::Fatal),
                stopped == spec_has_state(self.children@.take(i as int), ProgramState::Stopped),
                pending == spec_has_state(self.children@.take(i as int), ProgramState::Pending),
            decreases self.children@.len() - i,
        {
            proof {
                assert(self.children@.take(i + 1int).drop_last() =~= self.children@.take(i as int));
                assert(self.children@.take(i + 1int).last() == self.children@[i as int]);
            }
            match self.children[i].state {
                ProgramState::Killed => { killed = true; },
                ProgramState::Fatal => { fatal = true; },
                ProgramState::Stopped => { stopped = true; },
                ProgramState::Pending => { pending = true; },
                _ => {},
            }
            proof {
                lemma_has_state_extend(self.children@, i as int, ProgramState::Killed);
                lemma_has_state_extend(self.children@, i as int, ProgramState::Fatal);
                lemma_has_state_extend(self.children@, i as int, ProgramState::Stopped);
                lemma_has_state_extend(self.children@, i as int, ProgramState::Pending);
            }
            i += 1;
        }
        proof {
            assert(self.children@.take(self.children@.len() as int) =~= self.children@);
        }
        let dominant: Option<ProgramState> = if killed {
            Some(ProgramState::Killed)
        } else if fatal {
            Some(ProgramState::Fatal)
        } else if stopped {
            Some(ProgramState::Stopped)
        } else if pending {
            Some(ProgramState::Pending)
        } else {
            None
        };
        if let Some(d) = dominant {
            let mut j: usize = 0;
            while j < self.children.len()
                invariant
                    spec_same_config(*self, *old(self)),
                    self.children@.len() == old(self).children@.len(),
                    j <= self.children@.len(),
                    spec_dominant(old(self).children@) == Some(d),
                    forall|k: int| 0 <= k < j ==> self.children@[k] == spec_promote(old(self).children@[k], d, now),
                    forall|k: int| j <= k < self.children@.len() ==> self.children@[k] == old(self).children@[k],
                decreases self.children@.len() - j,
            {
                let mut c = placeholder_child();
                self.children.set_and_swap(j, &mut c);
                if d != ProgramState::Pending {
                    c.kill_program(now);
                }
                c.state = d;
                self.children.set_and_swap(j, &mut c);
                j += 1;
            }
            proof {
                assert(self.children@ =~= spec_reconcile(old(self).children@, now));
            }
        }
        dominant
    }

    /// Runs one tick for every replica of the group, then reconciles the
    /// group. Returns the indices of the replicas whose checks demand a
    /// freshly spawned child — none when the reconciliation found a dominant
    /// terminal state, as the whole group then holds it — or the first wait
    /// error met, which ends the pass at that replica.
    pub fn check(&mut self, now: u64) -> (r: Result<Vec<usize>, Error>)
        ensures
            spec_same_config(*final(self), *old(self)),
            final(self).children@.len() == old(self).children@.len(),
            (r matches Ok(plan) ==> exists|mid: Seq<ChildProcess>, resp: Seq<bool>|
                {
                    &&& mid.len() == old(self).children@.len()
                    &&& resp.len() == mid.len()
                    &&& (forall|k: int| 0 <= k < mid.len()
                        ==> #[trigger] spec_checked_ok(old(self).children@[k], *old(self), mid[k], resp[k], now))
                    &&& final(self).children@ == spec_reconcile(mid, now)
                    &&& plan@ == (if spec_dominant(mid) is Some { Seq::<usize>::empty() } else { spec_plan(resp) })
                    &&& (forall|j: int| 0 <= j < plan@.len() ==> #[trigger] plan@[j] < mid.len())
                }),
            (r matches Err(e) ==> spec_group_check_failed(*old(self), *final(self), e, now)),
            !spec_has_unpinned_slot(*old(self)) ==> r is Ok,
    {
        let mut plan: Vec<usize> = Vec::new();
        let ghost mut mid: Seq<ChildProcess> = Seq::empty();
        let ghost mut resp: Seq<bool> = Seq::empty();
        let mut i: usize = 0;
        while i < self.children.len()
            invariant
                spec_same_config(*self, *old(self)),
                self.children@.len() == old(self).children@.len(),
                i <= self.children@.len(),
                mid.len() == i,
                resp.len() == i,
                forall|k: int| 0 <= k < i
                    ==> #[trigger] spec_checked_ok(old(self).children@[k], *old(self), mid[k], resp[k], now),
                forall|k: int| 0 <= k < i ==> self.children@[k] == mid[k],
                forall|k: int| i <= k < self.children@.len() ==> self.children@[k] == old(self).children@[k],
                plan@ == spec_plan(resp),
                forall|j: int| 0 <= j < plan@.len() ==> #[trigger] plan@[j] < i,
            decreases self.children@.len() - i,
        {
            let ghost pre_child = self.children@[i as int];
            let mut c = placeholder_child();
            self.children.set_and_swap(i, &mut c);
            let res = c.check(self, now);
            let ghost cur_cfg = *self;
            self.children.set_and_swap(i, &mut c);
            match res {
                Ok(rsp) => {
                    proof {
                        if !spec_is_terminal(pre_child.state) {
                            let s = choose|s: ChildExitStatus|
                                {
                                    &&& spec_sample_ok(pre_child, s)
                                    &&& self.children@[i as int] == #[trigger] spec_apply(pre_child, cur_cfg, s, now)
                                    &&& !(s is WaitError)
                                    &&& rsp == spec_step(pre_child, cur_cfg, s, now).respawn
                                };
                            crate::childprocess::lemma_step_congruence(pre_child, cur_cfg, *old(self), s, now);
                            assert(self.children@[i as int] == spec_apply(pre_child, *old(self), s, now));
                        }
                        let old_resp = resp;
                        mid = mid.push(self.children@[i as int]);
                        resp = resp.push(rsp);
                        assert(spec_checked_ok(pre_child, *old(self), mid[i as int], rsp, now));
                        lemma_spec_plan_push(old_resp, rsp);
                    }
                    if rsp {
                        plan.push(i);
                        proof {
                            assert(plan@ =~= spec_plan(resp));
                        }
                    } else {
                        proof {
                            assert(plan@ =~= spec_plan(resp));
                        }
                    }
                },
                Err(e) => {
                    proof {
                        assert(!spec_is_terminal(pre_child.state));
                        let s = choose|s: ChildExitStatus|
                            {
                                &&& spec_sample_ok(pre_child, s)
                                &&& self.children@[i as int] == #[trigger] spec_apply(pre_child, cur_cfg, s, now)
                                &&& s is WaitError
                                &&& (s matches ChildExitStatus::WaitError(m) && e == Error::WaitError(m))
                            };
                        crate::childprocess::lemma_step_congruence(pre_child, cur_cfg, *old(self), s, now);
                        assert(self.children@[i as int] == spec_apply(pre_child, *old(self), s, now));
                        assert(spec_slot_unpinned(pre_child));
                        assert forall|k: int| 0 <= k < i implies spec_replica_checked(
                            old(self).children@[k],
                            *old(self),
                            #[trigger] self.children@[k],
                            now,
                        ) by {
                            assert(spec_checked_ok(old(self).children@[k], *old(self), mid[k], resp[k], now));
                            assert(self.children@[k] == mid[k]);
                        }
                        assert(spec_group_check_failed(*old(self), *self, e, now));
                    }
                    return Err(e);
                },
            }
            i += 1;
        }
        proof {
            assert(self.children@ =~= mid);
        }
        let dom = self.reconcile_state(now);
        if dom.is_some() {
            plan = Vec::new();
        }
        Ok(plan)
    }

    /// Sends every replica into a graceful stop: each enters Stopping and
    /// the configured stop signal goes to each attached child.
    pub fn stop_processes(&mut self, now: u64)
        ensures
            final(self).children@ == old(self).children@.map_values(|c: ChildProcess| spec_stop_child(c, now)),
            spec_same_config(*final(self), *old(self)),
    {
        let sig = self.stop_signal.signal_number();
        let mut j: usize = 0;
        while j < self.children.len()
            invariant
                spec_same_config(*self, *old(self)),
                self.children@.len() == old(self).children@.len(),
                j <= self.children@.len(),
                forall|k: int| 0 <= k < j ==> self.children@[k] == spec_stop_child(old(self).children@[k], now),
                forall|k: int| j <= k < self.children@.len() ==> self.children@[k] == old(self).children@[k],
            decreases self.children@.len() - j,
        {
            let mut c = placeholder_child();
            self.children.set_and_swap(j, &mut c);
            c.stop(sig, now);
            self.children.set_and_swap(j, &mut c);
            j += 1;
        }
        proof {
            assert(self.children@ =~= old(self).children@.map_values(|c: ChildProcess| spec_stop_child(c, now)));
        }
    }

    /// Sends every replica into a restart: each enters Restarting and the
    /// configured stop signal goes to each attached child; later ticks
    /// respawn each child once it exits.
    pub fn restart_processes(&mut self, now: u64)
        ensures
            final(self).children@ == old(self).children@.map_values(|c: ChildProcess| spec_restart_child(c, now)),
            spec_same_config(*final(self), *old(self)),
    {
        let sig = self.stop_signal.signal_number();
        let mut j: usize = 0;
        while j < self.children.len()
            invariant
                spec_same_config(*self, *old(self)),
                self.children@.len() == old(self).children@.len(),
                j <= self.children@.len(),
                forall|k: int| 0 <= k < j ==> self.children@[k] == spec_restart_child(old(self).children@[k], now),
                forall|k: int| j <= k < self.children@.len() ==> self.children@[k] == old(self).children@[k],
            decreases self.children@.len() - j,
        {
            let mut c = placeholder_child();
            self.children.set_and_swap(j, &mut c);
            c.restart(sig, now);
            self.children.set_and_swap(j, &mut c);
            j += 1;
        }
        proof {
            assert(self.children@ =~= old(self).children@.map_values(|c: ChildProcess| spec_restart_child(c, now)));
        }
    }

    /// Kills every attached child and drops all replica slots: afterwards no
    /// child of this group is alive or recorded.
    pub fn kill_processes(&mut self, now: u64)
        ensures
            final(self).children@.len() == 0,
            spec_same_config(*final(self), *old(self)),
    {
        while self.children.len() > 0
            invariant
                spec_same_config(*self, *old(self)),
            decreases self.children@.len(),
        {
            let c_opt = self.children.pop();
            if let Some(mut c) = c_opt {
                c.kill_program(now);
            }
        }
    }

    /// How many children the caller must spawn (and attach with
    /// [`Program::push_spawn`]) to honor a start from the given origin.
    pub fn start_process(&self, origin: Origin) -> (n: usize)
        ensures
            n == spec_spawns_needed(*self, origin),
    {
        if origin == Origin::Config && !self.auto_start {
            return 0;
        }
        if self.children.len() < self.num_procs as usize {
            self.num_procs as usize - self.children.len()
        } else {
            0
        }
    }

    /// Appends the outcome of one spawn as a fresh replica slot.
    pub fn push_spawn(&mut self, outcome: SpawnOutcome, now: u64)
        ensures
            final(self).children@ == old(self).children@.push(spec_new_child(outcome, now)),
            spec_same_config(*final(self), *old(self)),
    {
        let c = match outcome {
            SpawnOutcome::Attached(pid) => ChildProcess {
                child: Some(pid),
                state: ProgramState::Starting,
                exit_status: ChildExitStatus::Running,
                start_secs: Some(now),
                end_time: None,
                restart_count: 0,
            },
            SpawnOutcome::Failed => ChildProcess {
                child: None,
                state: ProgramState::Backoff,
                exit_status: ChildExitStatus::NonExistent,
                start_secs: Some(now),
                end_time: None,
                restart_count: 1,
            },
        };
        self.children.push(c);
    }

    /// Attaches the outcome of a respawn requested by a check to the replica
    /// slot that asked for it.
    pub fn attach_respawn(&mut self, i: usize, outcome: SpawnOutcome, now: u64)
        requires
            i < old(self).children@.len(),
        ensures
            final(self).children@ == old(self).children@.update(
                i as int,
                crate::childprocess::spec_attach(old(self).children@[i as int], outcome, now),
            ),
            spec_same_config(*final(self), *old(self)),
    {
        let mut c = placeholder_child();
        self.children.set_and_swap(i, &mut c);
        c.attach_spawn(outcome, now);
        self.children.set_and_swap(i, &mut c);
    }

    /// Applies a freshly loaded configuration of the same program to this
    /// live group. A structural difference tears the whole group down: every
    /// child is killed and none is carried over. If only the replica count
    /// or a timing budget changed, the surviving prefix of replicas keeps
    /// its children — their processes are not disturbed — and only the
    /// excess tail is killed. Children the new program still lacks are
    /// spawned by the caller through [`Program::start_process`].
    pub fn update_program(&mut self, new_program: &mut Program, now: u64)
        requires
            old(new_program).children@.len() == 0,
        ensures
            spec_same_config(*final(self), *old(self)),
            final(self).children@.len() == 0,
            spec_same_config(*final(new_program), *old(new_program)),
            final(new_program).children@ == (if spec_structural_eq(*old(self), *old(new_program)) {
                old(self).children@.take(
                    if old(self).children@.len() <= old(new_program).num_procs {
                        old(self).children@.len() as int
                    } else {
                        old(new_program).num_procs as int
                    },
                )
            } else {
                Seq::<ChildProcess>::empty()
            }),
    {
        if !structural_eq(self, new_program) {
            self.kill_processes(now);
            proof {
                assert(new_program.children@ =~= Seq::<ChildProcess>::empty());
            }
        } else {
            proof {
                assert(old(self).children@.take(old(self).children@.len() as int) =~= old(self).children@);
            }
            while self.children.len() > new_program.num_procs as usize
                invariant
                    spec_same_config(*self, *old(self)),
                    *new_program == *old(new_program),
                    self.children@.len() <= old(self).children@.len(),
                    self.children@ == old(self).children@.take(self.children@.len() as int),
                    old(self).children@.len() > old(new_program).num_procs
                        ==> self.children@.len() >= old(new_program).num_procs,
                    old(self).children@.len() <= old(new_program).num_procs
                        ==> self.children@.len() == old(self).children@.len(),
                decreases self.children@.len(),
            {
                let c_opt = self.children.pop();
                if let Some(mut last) = c_opt {
                    last.kill_program(now);
                }
                proof {
                    assert(self.children@ =~= old(self).children@.take(self.children@.len() as int));
                }
            }
            core::mem::swap(&mut new_program.children, &mut self.children);
            proof {
                assert(self.children@.len() == 0);
            }
        }
    }
}

/// Extending a scanned prefix by one replica finds a state exactly when the
/// prefix already had it or the new replica holds it.
proof fn lemma_has_state_extend(cs: Seq<ChildProcess>, i: int, s: ProgramState)
    requires
        0 <= i < cs.len(),
    ensures
        spec_has_state(cs.take(i + 1), s) == (spec_has_state(cs.take(i), s) || cs[i].state == s),
{
    if spec_has_state(cs.take(i), s) {
        let k = choose|k: int| 0 <= k < cs.take(i).len() && (#[trigger] cs.take(i)[k]).state == s;
        assert(cs.take(i + 1)[k].state == s);
    }
    if cs[i].state == s {
        assert(cs.take(i + 1)[i].state == s);
    }
    if spec_has_state(cs.take(i + 1), s) {
        let k = choose|k: int| 0 <= k < cs.take(i + 1).len() && (#[trigger] cs.take(i + 1)[k]).state == s;
        if k < i {
            assert(cs.take(i)[k].state == s);
        }
    }
}

/// The group-level reconciliation law: when any replica holds one of the
/// four dominant-candidate terminal states, reconciliation drives every
/// replica to the single highest-priority one present, and otherwise it
/// changes nothing.
pub proof fn lemma_reconcile_dominant(cs: Seq<ChildProcess>, now: u64)
    ensures
        spec_dominant(cs) is None ==> spec_reconcile(cs, now) == cs,
        (spec_dominant(cs) matches Some(d) ==> forall|i: int|
            0 <= i < cs.len() ==> #[trigger] spec_reconcile(cs, now)[i].state == d),
        spec_has_state(cs, ProgramState::Killed) ==> spec_dominant(cs) == Some(ProgramState::Killed),
        !spec_has_state(cs, ProgramState::Killed) && spec_has_state(cs, ProgramState::Fatal)
            ==> spec_dominant(cs) == Some(ProgramState::Fatal),
        !spec_has_state(cs, ProgramState::Killed) && !spec_has_state(cs, ProgramState::Fatal)
            && spec_has_state(cs, ProgramState::Stopped)
            ==> spec_dominant(cs) == Some(ProgramState::Stopped),
        !spec_has_state(cs, ProgramState::Killed) && !spec_has_state(cs, ProgramState::Fatal)
            && !spec_has_state(cs, ProgramState::Stopped) && spec_has_state(cs, ProgramState::Pending)
            ==> spec_dominant(cs) == Some(ProgramState::Pending),
{
}

/// Exec mirror of [`spec_structural_eq`].
pub fn structural_eq(a: &Program, b: &Program) -> (r: bool)
    ensures
        r == spec_structural_eq(*a, *b),
{
    a.name == b.name
        && a.cmd.0 == b.cmd.0
        && eq_str_vec(&a.cmd.1, &b.cmd.1)
        && a.auto_restart == b.auto_restart
        && eq_u8_vec(&a.exitcodes, &b.exitcodes)
        && a.start_retries == b.start_retries
        && a.auto_start == b.auto_start
        && a.stop_signal == b.stop_signal
        && eq_env(&a.env, &b.env)
        && a.working_dir == b.working_dir
        && a.umask == b.umask
        && eq_output(&a.stdout, &b.stdout)
        && eq_output(&a.stderr, &b.stderr)
}


/// The status line of a group: its name and its representative state — the
/// first replica's, under the reconciled invariant — or a note that no
/// replica is live.
pub open spec fn spec_status_line(p: Program) -> Seq<char> {
    p.name@ + " : "@ + (if p.children@.len() == 0 {
        "Inactive program"@
    } else {
        crate::childprocess::spec_state_label(p.children@[0].state)
    })
}

impl Program {
    /// One human-readable status line for this group.
    pub fn status(&self) -> (r: String)
        ensures
            r@ == spec_status_line(*self),
    {
        let mut s = self.name.clone();
        s.append(" : ");
        if self.children.len() == 0 {
            s.append("Inactive program");
        } else {
            let label = self.children[0].state.to_string();
            s.append(label.as_str());
        }
        s
    }
}

/// Splits a command value into the executable — its first whitespace token —
/// and the argument vector of the remaining tokens. An empty value yields an
/// empty executable and no arguments.
pub fn split_cmd_and_args(s: &str) -> (r: (String, Vec<String>))
    ensures
        ({
            let toks = crate::strutil::spec_tokens(s@);
            if toks.len() == 0 {
                r.0@ == Seq::<char>::empty() && r.1.deep_view() == Seq::<Seq<char>>::empty()
            } else {
                r.0@ == toks[0] && r.1.deep_view() == toks.skip(1)
            }
        }),
{
    let toks = crate::strutil::tokenize(s);
    proof {
        assert(toks.deep_view().len() == toks@.len());
    }
    if toks.len() == 0 {
        let head = String::new();
        let rest: Vec<String> = Vec::new();
        proof {
            assert(rest.deep_view() =~= Seq::<Seq<char>>::empty());
        }
        (head, rest)
    } else {
        let rest = crate::strutil::tail_of(&toks);
        let head = toks[0].clone();
        proof {
            assert(toks.deep_view()[0] == toks@[0]@);
        }
        (head, rest)
    }
}

/// The default file-creation mask, as configurations omit it.
pub fn default_umask() -> (r: String)
    ensures
        r@ == "0o022"@,
{
    String::from_str("0o022")
}

/// The numeric value of an octal digit, if the character is one.
pub open spec fn spec_octal_digit(c: char) -> Option<u16> {
    if c == '0' { Some(0u16) } else if c == '1' { Some(1u16) } else if c == '2' { Some(2u16) }
    else if c == '3' { Some(3u16) } else if c == '4' { Some(4u16) } else if c == '5' { Some(5u16) }
    else if c == '6' { Some(6u16) } else if c == '7' { Some(7u16) } else { None }
}

/// Exec mirror of [`spec_octal_digit`].
fn octal_digit(c: char) -> (r: Option<u16>)
    ensures
        r == spec_octal_digit(c),
{
    match c {
        '0' => Some(0), '1' => Some(1), '2' => Some(2), '3' => Some(3),
        '4' => Some(4), '5' => Some(5), '6' => Some(6), '7' => Some(7),
        _ => None,
    }
}

/// The digit part of a mask value: the characters after an optional `0o`
/// prefix.
pub open spec fn spec_umask_digits(s: Seq<char>) -> Seq<char> {
    if s.len() >= 2 && s[0] == '0' && s[1] == 'o' {
        s.skip(2)
    } else {
        s
    }
}

/// A well-formed file-creation mask: at most three octal digits, at least
/// one, after an optional `0o` prefix.
pub open spec fn spec_valid_umask(s: Seq<char>) -> bool {
    let d = spec_umask_digits(s);
    1 <= d.len() <= 3 && (forall|i: int| 0 <= i < d.len() ==> (#[trigger] spec_octal_digit(d[i])) is Some)
}

/// The numeric value of a well-formed mask.
pub open spec fn spec_umask_value(s: Seq<char>) -> u16 {
    let d = spec_umask_digits(s);
    if d.len() == 1 {
        spec_octal_digit(d[0])->0
    } else if d.len() == 2 {
        (spec_octal_digit(d[0])->0 * 8 + spec_octal_digit(d[1])->0) as u16
    } else {
        (spec_octal_digit(d[0])->0 * 64 + spec_octal_digit(d[1])->0 * 8 + spec_octal_digit(d[2])->0) as u16
    }
}

/// Parses a file-creation mask: an octal string of one to three digits,
/// optionally prefixed `0o`. Anything else is rejected.
pub fn parse_umask(s: &String) -> (r: Option<u16>)
    ensures
        r == (if spec_valid_umask(s@) {
            Some(spec_umask_value(s@))
        } else {
            None::<u16>
        }),
{
    let n = s.as_str().unicode_len();
    let prefixed = n >= 2 && s.as_str().get_char(0) == '0' && s.as_str().get_char(1) == 'o';
    let start: usize = if prefixed { 2 } else { 0 };
    proof {
        if prefixed {
            assert(spec_umask_digits(s@) =~= s@.skip(2));
        } else {
            assert(spec_umask_digits(s@) =~= s@);
        }
    }
    let dl = n - start;
    if dl < 1 || dl > 3 {
        return None;
    }
    let ghost d = spec_umask_digits(s@);
    let d0 = octal_digit(s.as_str().get_char(start));
    proof {
        assert(d[0] == s@[start as int]);
    }
    let v0 = match d0 {
        Some(v) => v,
        None => {
            return None;
        },
    };
    if dl == 1 {
        return Some(v0);
    }
    let d1 = octal_digit(s.as_str().get_char(start + 1));
    proof {
        assert(d[1] == s@[start + 1int]);
    }
    let v1 = match d1 {
        Some(v) => v,
        None => {
            return None;
        },
    };
    if dl == 2 {
        return Some(v0 * 8 + v1);
    }
    let d2 = octal_digit(s.as_str().get_char(start + 2));
    proof {
        assert(d[2] == s@[start + 2int]);
    }
    let v2 = match d2 {
        Some(v) => v,
        None => {
            return None;
        },
    };
    Some(v0 * 64 + v1 * 8 + v2)
}

/// The decimal text of a digit.
pub open spec fn spec_digit_str(d: u8) -> Seq<char> {
    if d == 0 { "0"@ } else if d == 1 { "1"@ } else if d == 2 { "2"@ }
    else if d == 3 { "3"@ } else if d == 4 { "4"@ } else if d == 5 { "5"@ }
    else if d == 6 { "6"@ } else if d == 7 { "7"@ } else if d == 8 { "8"@ } else { "9"@ }
}

/// Exec mirror of [`spec_digit_str`].
fn digit_str(d: u8) -> (r: &'static str)
    requires
        d < 10,
    ensures
        r@ == spec_digit_str(d),
{
    match d {
        0 => "0", 1 => "1", 2 => "2", 3 => "3", 4 => "4",
        5 => "5", 6 => "6", 7 => "7", 8 => "8", _ => "9",
    }
}

/// The decimal text of a byte-sized number, without leading zeros.
pub open spec fn spec_u8_dec(n: u8) -> Seq<char> {
    if n < 10 {
        spec_digit_str(n)
    } else if n < 100 {
        spec_digit_str((n / 10) as u8) + spec_digit_str((n % 10) as u8)
    } else {
        spec_digit_str((n / 100) as u8) + spec_digit_str(((n / 10) % 10) as u8) + spec_digit_str(
            (n % 10) as u8,
        )
    }
}

/// Renders a byte-sized number in decimal.
pub fn u8_to_string(n: u8) -> (r: String)
    ensures
        r@ == spec_u8_dec(n),
{
    if n < 10 {
        String::from_str(digit_str(n))
    } else if n < 100 {
        let mut s = String::from_str(digit_str(n / 10));
        s.append(digit_str(n % 10));
        s
    } else {
        let mut s = String::from_str(digit_str(n / 100));
        s.append(digit_str((n / 10) % 10));
        s.append(digit_str(n % 10));
        s
    }
}


/// A copy of a string vector, entry for entry.
fn clone_str_vec(a: &Vec<String>) -> (r: Vec<String>)
    ensures
        r@ == a@,
{
    let mut r: Vec<String> = Vec::new();
    let mut i: usize = 0;
    while i < a.len()
        invariant
            i <= a@.len(),
            r@ == a@.take(i as int),
        decreases a@.len() - i,
    {
        r.push(a[i].clone());
        proof {
            assert(r@ =~= a@.take(i + 1int));
        }
        i += 1;
    }
    proof {
        assert(a@.take(a@.len() as int) =~= a@);
    }
    r
}

/// A copy of an environment overlay, entry for entry.
fn clone_env_vec(a: &Vec<(String, String)>) -> (r: Vec<(String, String)>)
    ensures
        r@ == a@,
{
    let mut r: Vec<(String, String)> = Vec::new();
    let mut i: usize = 0;
    while i < a.len()
        invariant
            i <= a@.len(),
            r@ == a@.take(i as int),
        decreases a@.len() - i,
    {
        r.push((a[i].0.clone(), a[i].1.clone()));
        proof {
            assert(r@ =~= a@.take(i + 1int));
        }
        i += 1;
    }
    proof {
        assert(a@.take(a@.len() as int) =~= a@);
    }
    r
}

/// The log path the `auto` output sentinel resolves to, derived from the
/// program name and the replica index under the standard log directory.
pub open spec fn spec_auto_log_path(name: Seq<char>, idx: u8, err: bool) -> Seq<char> {
    "/var/log/taskmaster/"@ + name + "_"@ + spec_u8_dec(idx) + (if err {
        ".err"@
    } else {
        ".out"@
    })
}

/// How a configured output destination resolves for one spawn: a file path
/// stays itself, an inherited descriptor stays itself, and the `auto`
/// sentinel becomes the standard log path of the (name, replica) pair.
pub open spec fn spec_output_resolved(
    src: Output,
    dst: Output,
    name: Seq<char>,
    idx: u8,
    err: bool,
) -> bool {
    match src {
        Output::File(p) => dst matches Output::File(q) && q@ == p@,
        Output::Fd(n) => dst matches Output::Fd(m) && m == n,
        Output::Auto => dst matches Output::File(q) && q@ == spec_auto_log_path(name, idx, err),
    }
}

/// Everything one spawn must apply, fully resolved: the executable and its
/// arguments, the working directory, the environment overlay, the numeric
/// file-creation mask — to be applied only for the duration of the spawn —
/// and the two output destinations.
#[derive(Debug)]
pub struct SpawnSpec {
    /// The executable to launch.
    pub cmd: String,
    /// Its argument vector.
    pub args: Vec<String>,
    /// The child's initial working directory.
    pub working_dir: String,
    /// Environment entries overlaid onto the child environment.
    pub env: Vec<(String, String)>,
    /// The numeric file-creation mask in force while spawning.
    pub umask: u16,
    /// Where the child's standard output goes.
    pub stdout: Output,
    /// Where the child's standard error goes.
    pub stderr: Output,
}

/// Resolves one output destination for a spawn.
fn resolve_output(o: &Output, name: &String, idx: u8, err: bool) -> (r: Output)
    ensures
        spec_output_resolved(*o, r, name@, idx, err),
{
    match o {
        Output::File(p) => Output::File(p.clone()),
        Output::Fd(n) => Output::Fd(*n),
        Output::Auto => {
            let mut path = String::from_str("/var/log/taskmaster/");
            path.append(name.as_str());
            path.append("_");
            let num = u8_to_string(idx);
            path.append(num.as_str());
            if err {
                path.append(".err");
            } else {
                path.append(".out");
            }
            Output::File(path)
        },
    }
}

impl Program {
    /// The fully resolved parameters for spawning this program's replica
    /// number `process_number`: the command and arguments as configured, the
    /// configured working directory and environment honored verbatim, the
    /// mask parsed from the octal string (the default mask when it does not
    /// parse), and the outputs resolved against the replica's identity.
    pub fn spawn_spec(&self, process_number: u8) -> (r: SpawnSpec)
        ensures
            r.cmd@ == self.cmd.0@,
            r.args@ == self.cmd.1@,
            r.working_dir@ == self.working_dir@,
            r.env@ == (match self.env {
                Some(e) => e@,
                None => Seq::<(String, String)>::empty(),
            }),
            r.umask == (if spec_valid_umask(self.umask@) {
                spec_umask_value(self.umask@)
            } else {
                18u16
            }),
            spec_output_resolved(self.stdout, r.stdout, self.name@, process_number, false),
            spec_output_resolved(self.stderr, r.stderr, self.name@, process_number, true),
    {
        let umask = match parse_umask(&self.umask) {
            Some(v) => v,
            None => 18,
        };
        let env = match &self.env {
            Some(e) => clone_env_vec(e),
            None => Vec::new(),
        };
        proof {
            if self.env is None {
                assert(env@ =~= Seq::<(String, String)>::empty());
            }
        }
        SpawnSpec {
            cmd: self.cmd.0.clone(),
            args: clone_str_vec(&self.cmd.1),
            working_dir: self.working_dir.clone(),
            env,
            umask,
            stdout: resolve_output(&self.stdout, &self.name, process_number, false),
            stderr: resolve_output(&self.stderr, &self.name, process_number, true),
        }
    }
}

} // verus!
