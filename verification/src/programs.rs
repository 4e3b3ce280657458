//! The program registry: every configured program group of the current
//! configuration generation, keyed by program name, with the reload diff
//! that carries live children over to a freshly loaded configuration.

use vstd::prelude::*;

verus! {

use crate::childprocess::{ChildExitStatus, ChildProcess, SpawnOutcome};
use crate::error::Error;
use crate::actions::Action;
use crate::program::{
    lemma_failed_group_has_unpinned, parse_umask, spec_checked_ok, spec_group_check_failed,
    spec_has_unpinned_slot, spec_new_child, spec_reconcile, spec_restart_child, spec_same_config,
    spec_spawns_needed, spec_status_line, spec_stop_child, spec_structural_eq, spec_valid_umask,
    AutoRestart, Origin, Output, Program, StopSignal,
};
use vstd::string::StrSliceExecFns;
use vstd::string::StringExecFns;
use vstd::pervasive::VecAdditionalExecFns;

/// Whether the sequence of names holds the given name.
pub open spec fn spec_name_in(names: Seq<Seq<char>>, name: Seq<char>) -> bool {
    exists|i: int| 0 <= i < names.len() && names[i] == name
}

/// True when `names` holds `name`.
fn name_in(names: &Vec<String>, name: &String) -> (r: bool)
    ensures
        r == spec_name_in(names.deep_view(), name@),
{
    let mut i: usize = 0;
    while i < names.len()
        invariant
            i <= names@.len(),
            forall|k: int| 0 <= k < i ==> names.deep_view()[k] != name@,
        decreases names@.len() - i,
    {
        let eq = names[i] == *name;
        proof {
            assert(names.deep_view()[i as int] == names@[i as int]@);
        }
        if eq {
            return true;
        }
        i += 1;
    }
    proof {
        assert(names.deep_view().len() == names@.len());
    }
    false
}

/// What one supervision pass did to one group: every replica stepped under
/// some sampled status, and the group was then reconciled.
pub open spec fn spec_group_checked(pre: Program, post: Program, now: u64) -> bool {
    exists|mid: Seq<ChildProcess>, resp: Seq<bool>|
        #![trigger spec_reconcile(mid, now), resp.len()]
        {
            &&& mid.len() == pre.children@.len()
            &&& resp.len() == mid.len()
            &&& (forall|k: int|
                0 <= k < mid.len() ==> #[trigger] spec_checked_ok(
                    pre.children@[k],
                    pre,
                    mid[k],
                    resp[k],
                    now,
                ))
            &&& post.children@ == spec_reconcile(mid, now)
        }
}

/// One spawn a supervision pass asks the caller to perform: a fresh child
/// for this replica slot of this group.
#[derive(Debug, Clone, Copy, PartialEq, Eq, Structural)]
pub struct RespawnSlot {
    /// Index of the group in the registry.
    pub program: usize,
    /// Index of the replica slot within the group.
    pub replica: usize,
}

/// The registry: one group per configured program, in configuration order.
#[derive(Debug)]
pub struct Programs {
    /// The program groups; names are unique.
    pub programs: Vec<Program>,
}

/// Whether a group with the given name exists in the sequence.
pub open spec fn spec_contains_name(ps: Seq<Program>, name: Seq<char>) -> bool {
    exists|i: int| 0 <= i < ps.len() && ps[i].name@ == name
}

/// The replica slots a freshly loaded program takes over from the live
/// registry: the surviving prefix of its old group's slots when only
/// non-structural fields changed, and none otherwise.
pub open spec fn spec_updated_group(olds: Seq<Program>, newp: Program) -> Seq<ChildProcess> {
    if spec_contains_name(olds, newp.name@) {
        let j = choose|j: int| 0 <= j < olds.len() && olds[j].name@ == newp.name@;
        if spec_structural_eq(olds[j], newp) {
            olds[j].children@.take(
                if olds[j].children@.len() <= newp.num_procs {
                    olds[j].children@.len() as int
                } else {
                    newp.num_procs as int
                },
            )
        } else {
            Seq::empty()
        }
    } else {
        Seq::empty()
    }
}

/// A reload that keeps a program structurally unchanged and wants at least
/// as many replicas as are live transfers that group's whole replica vector
/// intact: the surviving slots are exactly the ones that were running, in
/// order, none signalled and none respawned.
pub proof fn lemma_update_transfers_group(olds: Seq<Program>, newp: Program, j: int)
    requires
        0 <= j < olds.len(),
        olds[j].name@ == newp.name@,
        forall|a: int, b: int|
            0 <= a < b < olds.len() ==> #[trigger] olds[a].name@ != #[trigger] olds[b].name@,
        spec_structural_eq(olds[j], newp),
        olds[j].children@.len() <= newp.num_procs,
    ensures
        spec_updated_group(olds, newp) == olds[j].children@,
{
    assert(spec_contains_name(olds, newp.name@));
    let jj = choose|jj: int| 0 <= jj < olds.len() && olds[jj].name@ == newp.name@;
    assert(jj == j);
    assert(olds[j].children@.take(olds[j].children@.len() as int) =~= olds[j].children@);
}

/// A program value carrying no configuration and no replicas; stands in a
/// vector slot while its real value is worked on.
fn placeholder_program() -> (r: Program)
    ensures
        r.children@.len() == 0,
{
    Program {
        name: String::new(),
        cmd: (String::new(), Vec::new()),
        num_procs: 0,
        auto_start: false,
        auto_restart: AutoRestart::Never,
        exitcodes: Vec::new(),
        start_retries: 0,
        start_secs: 0,
        stop_signal: StopSignal::Term,
        stop_time: 0,
        env: None,
        working_dir: String::new(),
        umask: String::new(),
        stdout: Output::Auto,
        stderr: Output::Auto,
        children: Vec::new(),
    }
}

impl Programs {
    /// Registry invariant: program names are unique.
    pub open spec fn well_formed(&self) -> bool {
        forall|i: int, j: int|
            0 <= i < j < self.programs@.len()
                ==> #[trigger] self.programs@[i].name@ != #[trigger] self.programs@[j].name@
    }

    /// The position of the first group with the given name, if any.
    pub fn index_of(&self, name: &String) -> (r: Option<usize>)
        ensures
            match r {
                Some(i) => i < self.programs@.len() && self.programs@[i as int].name@ == name@
                    && (forall|k: int| 0 <= k < i ==> #[trigger] self.programs@[k].name@ != name@),
                None => forall|k: int|
                    0 <= k < self.programs@.len() ==> #[trigger] self.programs@[k].name@ != name@,
            },
    {
        let mut i: usize = 0;
        while i < self.programs.len()
            invariant
                i <= self.programs@.len(),
                forall|k: int| 0 <= k < i ==> #[trigger] self.programs@[k].name@ != name@,
            decreases self.programs@.len() - i,
        {
            if self.programs[i].name == *name {
                return Some(i);
            }
            i += 1;
        }
        None
    }

    /// Applies a freshly loaded configuration to the live registry and
    /// returns the new registry. Every program of the new configuration
    /// whose name is live takes over its old group's replicas as far as the
    /// structural fields allow; every live child not carried over — the
    /// excess tail of a shrunken group, every replica of a structurally
    /// changed program, and every replica of a program the new configuration
    /// no longer names — is killed. Children the new configuration asks for
    /// beyond what was carried over are spawned by the caller through the
    /// start operations.
    pub fn update_config_with_config(&mut self, new_config: Programs, now: u64) -> (r: Result<
        Programs,
        Error,
    >)
        requires
            old(self).well_formed(),
            new_config.well_formed(),
            forall|i: int|
                0 <= i < new_config.programs@.len()
                    ==> (#[trigger] new_config.programs@[i]).children@.len() == 0,
        ensures
            (r matches Ok(out) && {
                let news = new_config.programs@;
                &&& out.programs@.len() == news.len()
                &&& (forall|i: int|
                    0 <= i < news.len() ==> spec_same_config(#[trigger] out.programs@[i], news[i]))
                &&& (forall|i: int|
                    0 <= i < news.len()
                        ==> (#[trigger] out.programs@[i]).children@ == spec_updated_group(
                        old(self).programs@,
                        news[i],
                    ))
                &&& out.well_formed()
                &&& final(self).programs@.len() == old(self).programs@.len()
                &&& (forall|j: int|
                    0 <= j < final(self).programs@.len()
                        ==> (#[trigger] final(self).programs@[j]).children@.len() == 0)
            }),
    {
        let mut new_config = new_config;
        let ghost news0 = new_config.programs@;
        let mut i: usize = 0;
        while i < new_config.programs.len()
            invariant
                old(self).well_formed(),
                i <= news0.len(),
                new_config.programs@.len() == news0.len(),
                forall|k: int| i <= k < news0.len() ==> new_config.programs@[k] == news0[k],
                forall|k: int|
                    0 <= k < news0.len() ==> (#[trigger] news0[k]).children@.len() == 0,
                forall|k: int, l: int|
                    0 <= k < l < news0.len() ==> news0[k].name@ != news0[l].name@,
                forall|k: int|
                    0 <= k < i
                        ==> spec_same_config(#[trigger] new_config.programs@[k], news0[k]),
                forall|k: int|
                    0 <= k < i
                        ==> (#[trigger] new_config.programs@[k]).children@ == spec_updated_group(
                        old(self).programs@,
                        news0[k],
                    ),
                self.programs@.len() == old(self).programs@.len(),
                forall|j: int|
                    0 <= j < self.programs@.len()
                        ==> spec_same_config(
                        #[trigger] self.programs@[j],
                        old(self).programs@[j],
                    ),
                forall|j: int|
                    0 <= j < self.programs@.len()
                        ==> ((#[trigger] self.programs@[j]).children@
                        == old(self).programs@[j].children@ || self.programs@[j].children@.len()
                        == 0),
                forall|j: int|
                    0 <= j < self.programs@.len() && !(exists|k: int|
                        0 <= k < i && news0[k].name@ == old(self).programs@[j].name@)
                        ==> (#[trigger] self.programs@[j]).children@
                        == old(self).programs@[j].children@,
            decreases news0.len() - i,
        {
            let mut new_p = placeholder_program();
            new_config.programs.set_and_swap(i, &mut new_p);
            let idx = self.index_of(&new_p.name);
            match idx {
                Some(j) => {
                    proof {
                        assert(self.programs@[j as int].name@ == news0[i as int].name@);
                        assert(old(self).programs@[j as int].name@ == news0[i as int].name@);
                        assert(!(exists|k: int|
                            0 <= k < i && news0[k].name@ == old(self).programs@[j as int].name@));
                        assert(self.programs@[j as int].children@ == old(
                            self,
                        ).programs@[j as int].children@);
                    }
                    let mut old_p = placeholder_program();
                    self.programs.set_and_swap(j, &mut old_p);
                    old_p.update_program(&mut new_p, now);
                    self.programs.set_and_swap(j, &mut old_p);
                    proof {
                        let jj = choose|jj: int|
                            0 <= jj < old(self).programs@.len() && old(
                                self,
                            ).programs@[jj].name@ == news0[i as int].name@;
                        assert(jj == j as int);
                        assert(new_p.children@ == spec_updated_group(
                            old(self).programs@,
                            news0[i as int],
                        ));
                    }
                },
                None => {
                    proof {
                        assert forall|k: int|
                            0 <= k < old(self).programs@.len() implies (#[trigger] old(
                            self,
                        ).programs@[k]).name@ != new_p.name@ by {
                            assert(self.programs@[k].name@ != new_p.name@);
                            assert(spec_same_config(self.programs@[k], old(self).programs@[k]));
                        }
                        assert(!spec_contains_name(old(self).programs@, new_p.name@));
                        assert(new_p.children@ =~= Seq::<ChildProcess>::empty());
                    }
                },
            }
            new_config.programs.set_and_swap(i, &mut new_p);
            i += 1;
        }
        let ghost nc1 = new_config;
        let mut j: usize = 0;
        while j < self.programs.len()
            invariant
                new_config == nc1,
                j <= self.programs@.len(),
                self.programs@.len() == old(self).programs@.len(),
                forall|k: int|
                    0 <= k < j ==> (#[trigger] self.programs@[k]).children@.len() == 0,
            decreases self.programs@.len() - j,
        {
            let mut g = placeholder_program();
            self.programs.set_and_swap(j, &mut g);
            g.kill_processes(now);
            self.programs.set_and_swap(j, &mut g);
            j += 1;
        }
        Ok(new_config)
    }

    /// Sends every named group into a graceful stop.
    pub fn stop(&mut self, programs: &Vec<String>, now: u64)
        ensures
            final(self).programs@.len() == old(self).programs@.len(),
            forall|k: int|
                0 <= k < old(self).programs@.len() ==> spec_same_config(
                    #[trigger] final(self).programs@[k],
                    old(self).programs@[k],
                ),
            forall|k: int|
                0 <= k < old(self).programs@.len()
                    ==> (#[trigger] final(self).programs@[k]).children@ == (
                if spec_name_in(programs.deep_view(), old(self).programs@[k].name@) {
                    old(self).programs@[k].children@.map_values(
                        |c: ChildProcess| spec_stop_child(c, now),
                    )
                } else {
                    old(self).programs@[k].children@
                }),
    {
        let mut k: usize = 0;
        while k < self.programs.len()
            invariant
                k <= self.programs@.len(),
                self.programs@.len() == old(self).programs@.len(),
                forall|j: int|
                    0 <= j < self.programs@.len() ==> spec_same_config(
                        #[trigger] self.programs@[j],
                        old(self).programs@[j],
                    ),
                forall|j: int|
                    0 <= j < k
                        ==> (#[trigger] self.programs@[j]).children@ == (
                    if spec_name_in(programs.deep_view(), old(self).programs@[j].name@) {
                        old(self).programs@[j].children@.map_values(
                            |c: ChildProcess| spec_stop_child(c, now),
                        )
                    } else {
                        old(self).programs@[j].children@
                    }),
                forall|j: int|
                    k <= j < self.programs@.len()
                        ==> (#[trigger] self.programs@[j]).children@
                        == old(self).programs@[j].children@,
            decreases self.programs@.len() - k,
        {
            if name_in(programs, &self.programs[k].name) {
                let mut g = placeholder_program();
                self.programs.set_and_swap(k, &mut g);
                g.stop_processes(now);
                self.programs.set_and_swap(k, &mut g);
            }
            k += 1;
        }
    }

    /// Sends every named group into a restart.
    pub fn restart(&mut self, programs: &Vec<String>, now: u64)
        ensures
            final(self).programs@.len() == old(self).programs@.len(),
            forall|k: int|
                0 <= k < old(self).programs@.len() ==> spec_same_config(
                    #[trigger] final(self).programs@[k],
                    old(self).programs@[k],
                ),
            forall|k: int|
                0 <= k < old(self).programs@.len()
                    ==> (#[trigger] final(self).programs@[k]).children@ == (
                if spec_name_in(programs.deep_view(), old(self).programs@[k].name@) {
                    old(self).programs@[k].children@.map_values(
                        |c: ChildProcess| spec_restart_child(c, now),
                    )
                } else {
                    old(self).programs@[k].children@
                }),
    {
        let mut k: usize = 0;
        while k < self.programs.len()
            invariant
                k <= self.programs@.len(),
                self.programs@.len() == old(self).programs@.len(),
                forall|j: int|
                    0 <= j < self.programs@.len() ==> spec_same_config(
                        #[trigger] self.programs@[j],
                        old(self).programs@[j],
                    ),
                forall|j: int|
                    0 <= j < k
                        ==> (#[trigger] self.programs@[j]).children@ == (
                    if spec_name_in(programs.deep_view(), old(self).programs@[j].name@) {
                        old(self).programs@[j].children@.map_values(
                            |c: ChildProcess| spec_restart_child(c, now),
                        )
                    } else {
                        old(self).programs@[j].children@
                    }),
                forall|j: int|
                    k <= j < self.programs@.len()
                        ==> (#[trigger] self.programs@[j]).children@
                        == old(self).programs@[j].children@,
            decreases self.programs@.len() - k,
        {
            if name_in(programs, &self.programs[k].name) {
                let mut g = placeholder_program();
                self.programs.set_and_swap(k, &mut g);
                g.restart_processes(now);
                self.programs.set_and_swap(k, &mut g);
            }
            k += 1;
        }
    }

    /// The spawns an operator start of the named groups asks for: one entry
    /// per missing child, holding the group's index, in registry order.
    pub fn start(&self, programs: &Vec<String>) -> (plan: Vec<usize>)
        ensures
            plan@ == spec_start_plan(
                self.programs@,
                Some(programs.deep_view()),
                Origin::CLI,
            ),
    {
        self.start_plan(Some(programs))
    }

    /// The spawns a configuration-load start of every group asks for: one
    /// entry per missing child of every auto-started group, in registry
    /// order.
    pub fn start_all(&self) -> (plan: Vec<usize>)
        ensures
            plan@ == spec_start_plan(self.programs@, None, Origin::Config),
    {
        self.start_plan(None)
    }

    /// Shared plan builder for the two start operations.
    fn start_plan(&self, programs: Option<&Vec<String>>) -> (plan: Vec<usize>)
        ensures
            plan@ == spec_start_plan(
                self.programs@,
                match programs {
                    Some(ns) => Some(ns.deep_view()),
                    None => None,
                },
                match programs {
                    Some(ns) => Origin::CLI,
                    None => Origin::Config,
                },
            ),
    {
        let ghost names: Option<Seq<Seq<char>>> = match programs {
            Some(ns) => Some(ns.deep_view()),
            None => None,
        };
        let ghost origin: Origin = match programs {
            Some(ns) => Origin::CLI,
            None => Origin::Config,
        };
        let mut plan: Vec<usize> = Vec::new();
        let mut k: usize = 0;
        while k < self.programs.len()
            invariant
                k <= self.programs@.len(),
                names == (match programs {
                    Some(ns) => Some(ns.deep_view()),
                    None => None::<Seq<Seq<char>>>,
                }),
                origin == (match programs {
                    Some(ns) => Origin::CLI,
                    None => Origin::Config,
                }),
                plan@ == spec_start_plan(self.programs@.take(k as int), names, origin),
            decreases self.programs@.len() - k,
        {
            let wanted = match programs {
                Some(ns) => name_in(ns, &self.programs[k].name),
                None => true,
            };
            if wanted {
                let n = self.programs[k].start_process(
                    match programs {
                        Some(_) => Origin::CLI,
                        None => Origin::Config,
                    },
                );
                let mut c: usize = 0;
                while c < n
                    invariant
                        c <= n,
                        n == spec_spawns_needed(self.programs@[k as int], origin),
                        k < self.programs@.len(),
                        plan@ == spec_start_plan(self.programs@.take(k as int), names, origin)
                            + Seq::new(c as nat, |m: int| k as usize),
                    decreases n - c,
                {
                    plan.push(k);
                    proof {
                        assert(plan@ =~= spec_start_plan(self.programs@.take(k as int), names, origin)
                            + Seq::new((c + 1) as nat, |m: int| k as usize));
                    }
                    c += 1;
                }
            }
            proof {
                assert(self.programs@.take(k + 1int).drop_last() =~= self.programs@.take(k as int));
                assert(self.programs@.take(k + 1int).last() == self.programs@[k as int]);
                if !wanted {
                    assert(plan@ =~= spec_start_plan(self.programs@.take(k + 1int), names, origin));
                } else {
                    assert(plan@ =~= spec_start_plan(self.programs@.take(k + 1int), names, origin));
                }
            }
            k += 1;
        }
        proof {
            assert(self.programs@.take(self.programs@.len() as int) =~= self.programs@);
        }
        plan
    }

    /// Appends the outcome of one spawn requested by a start plan to the
    /// named group.
    pub fn apply_spawn(&mut self, i: usize, outcome: SpawnOutcome, now: u64)
        requires
            i < old(self).programs@.len(),
        ensures
            final(self).programs@.len() == old(self).programs@.len(),
            forall|k: int|
                0 <= k < old(self).programs@.len() && k != i
                    ==> #[trigger] final(self).programs@[k] == old(self).programs@[k],
            spec_same_config(final(self).programs@[i as int], old(self).programs@[i as int]),
            final(self).programs@[i as int].children@ == old(self).programs@[i as int].children@
                .push(spec_new_child(outcome, now)),
    {
        let mut g = placeholder_program();
        self.programs.set_and_swap(i, &mut g);
        g.push_spawn(outcome, now);
        self.programs.set_and_swap(i, &mut g);
    }

    /// Attaches the outcome of a respawn a supervision pass asked for to the
    /// replica slot that demanded it.
    pub fn attach_respawn(&mut self, slot: RespawnSlot, outcome: SpawnOutcome, now: u64)
        requires
            slot.program < old(self).programs@.len(),
            slot.replica < old(self).programs@[slot.program as int].children@.len(),
        ensures
            final(self).programs@.len() == old(self).programs@.len(),
            forall|k: int|
                0 <= k < old(self).programs@.len() && k != slot.program
                    ==> #[trigger] final(self).programs@[k] == old(self).programs@[k],
            spec_same_config(
                final(self).programs@[slot.program as int],
                old(self).programs@[slot.program as int],
            ),
            final(self).programs@[slot.program as int].children@
                == old(self).programs@[slot.program as int].children@.update(
                slot.replica as int,
                crate::childprocess::spec_attach(
                    old(self).programs@[slot.program as int].children@[slot.replica as int],
                    outcome,
                    now,
                ),
            ),
    {
        let mut g = placeholder_program();
        self.programs.set_and_swap(slot.program, &mut g);
        g.attach_respawn(slot.replica, outcome, now);
        self.programs.set_and_swap(slot.program, &mut g);
    }

    /// Runs one supervision pass over every group: each replica is checked
    /// and each group reconciled. Returns the spawns the pass asks for, or
    /// the first wait error met, which ends the pass at that group.
    pub fn check(&mut self, now: u64) -> (r: Result<Vec<RespawnSlot>, Error>)
        ensures
            final(self).programs@.len() == old(self).programs@.len(),
            forall|k: int|
                0 <= k < old(self).programs@.len() ==> spec_same_config(
                    #[trigger] final(self).programs@[k],
                    old(self).programs@[k],
                ),
            forall|k: int|
                0 <= k < old(self).programs@.len()
                    ==> (#[trigger] final(self).programs@[k]).children@.len()
                    == old(self).programs@[k].children@.len(),
            (r matches Ok(slots) ==> {
                &&& (forall|k: int|
                    0 <= k < old(self).programs@.len() ==> spec_group_checked(
                        old(self).programs@[k],
                        #[trigger] final(self).programs@[k],
                        now,
                    ))
                &&& (forall|m: int|
                    0 <= m < slots@.len()
                        ==> (#[trigger] slots@[m]).program < old(self).programs@.len()
                        && slots@[m].replica
                        < final(self).programs@[slots@[m].program as int].children@.len())
            }),
            (r matches Err(e) ==> exists|g: int|
                {
                    &&& 0 <= g < old(self).programs@.len()
                    &&& #[trigger] spec_group_check_failed(
                        old(self).programs@[g],
                        final(self).programs@[g],
                        e,
                        now,
                    )
                    &&& (forall|k: int|
                        0 <= k < g ==> spec_group_checked(
                            old(self).programs@[k],
                            #[trigger] final(self).programs@[k],
                            now,
                        ))
                    &&& (forall|k: int|
                        g < k < old(self).programs@.len()
                            ==> #[trigger] final(self).programs@[k] == old(self).programs@[k])
                }),
            ((forall|k: int|
                0 <= k < old(self).programs@.len() ==> !spec_has_unpinned_slot(
                    #[trigger] old(self).programs@[k],
                )) ==> r is Ok),
    {
        let mut slots: Vec<RespawnSlot> = Vec::new();
        let mut k: usize = 0;
        while k < self.programs.len()
            invariant
                k <= self.programs@.len(),
                self.programs@.len() == old(self).programs@.len(),
                forall|j: int|
                    0 <= j < self.programs@.len() ==> spec_same_config(
                        #[trigger] self.programs@[j],
                        old(self).programs@[j],
                    ),
                forall|j: int|
                    0 <= j < self.programs@.len()
                        ==> (#[trigger] self.programs@[j]).children@.len()
                        == old(self).programs@[j].children@.len(),
                forall|j: int|
                    0 <= j < k ==> spec_group_checked(
                        old(self).programs@[j],
                        #[trigger] self.programs@[j],
                        now,
                    ),
                forall|j: int|
                    k <= j < self.programs@.len()
                        ==> #[trigger] self.programs@[j] == old(self).programs@[j],
                forall|m: int|
                    0 <= m < slots@.len() ==> (#[trigger] slots@[m]).program < k
                        && slots@[m].replica < self.programs@[slots@[m].program as int].children@.len(),
            decreases self.programs@.len() - k,
        {
            let ghost pre_group = self.programs@[k as int];
            let mut g = placeholder_program();
            self.programs.set_and_swap(k, &mut g);
            let res = g.check(now);
            self.programs.set_and_swap(k, &mut g);
            match res {
                Ok(plan) => {
                    proof {
                        let (mid, resp) = choose|mid: Seq<ChildProcess>, resp: Seq<bool>|
                            {
                                &&& mid.len() == pre_group.children@.len()
                                &&& resp.len() == mid.len()
                                &&& (forall|x: int|
                                    0 <= x < mid.len() ==> #[trigger] spec_checked_ok(
                                        pre_group.children@[x],
                                        pre_group,
                                        mid[x],
                                        resp[x],
                                        now,
                                    ))
                                &&& self.programs@[k as int].children@ == spec_reconcile(mid, now)
                                &&& plan@ == (if crate::program::spec_dominant(mid) is Some {
                                    Seq::<usize>::empty()
                                } else {
                                    crate::program::spec_plan(resp)
                                })
                                &&& (forall|x: int|
                                    0 <= x < plan@.len() ==> #[trigger] plan@[x] < mid.len())
                            };
                        assert(spec_group_checked(pre_group, self.programs@[k as int], now));
                    }
                    let mut m: usize = 0;
                    while m < plan.len()
                        invariant
                            m <= plan@.len(),
                            k < self.programs@.len(),
                            forall|x: int|
                                0 <= x < plan@.len() ==> #[trigger] plan@[x]
                                    < self.programs@[k as int].children@.len(),
                            forall|x: int|
                                0 <= x < slots@.len() ==> (#[trigger] slots@[x]).program <= k
                                    && slots@[x].replica
                                    < self.programs@[slots@[x].program as int].children@.len(),
                        decreases plan@.len() - m,
                    {
                        slots.push(RespawnSlot { program: k, replica: plan[m] });
                        m += 1;
                    }
                },
                Err(e) => {
                    proof {
                        assert(pre_group == old(self).programs@[k as int]);
                        assert(spec_group_check_failed(
                            old(self).programs@[k as int],
                            self.programs@[k as int],
                            e,
                            now,
                        ));
                        lemma_failed_group_has_unpinned(
                            old(self).programs@[k as int],
                            self.programs@[k as int],
                            e,
                            now,
                        );
                    }
                    return Err(e);
                },
            }
            k += 1;
        }
        Ok(slots)
    }
}

/// The spawns that starting the named groups (or, with no name filter, all
/// groups) from the given origin asks for: for each group taken in registry
/// order, one entry per missing child, holding the group's index.
pub open spec fn spec_start_plan(
    ps: Seq<Program>,
    names: Option<Seq<Seq<char>>>,
    origin: Origin,
) -> Seq<usize>
    decreases ps.len(),
{
    if ps.len() == 0 {
        Seq::empty()
    } else {
        spec_start_plan(ps.drop_last(), names, origin) + (if (match names {
            Some(ns) => spec_name_in(ns, ps.last().name@),
            None => true,
        }) {
            Seq::new(
                spec_spawns_needed(ps.last(), origin) as nat,
                |m: int| (ps.len() - 1) as usize,
            )
        } else {
            Seq::empty()
        })
    }
}


/// What stopping the named groups does to the registry: every named group's
/// replicas enter Stopping with the stop time recorded, everything else is
/// untouched.
pub open spec fn spec_stopped_all(
    pre: Seq<Program>,
    post: Seq<Program>,
    names: Seq<Seq<char>>,
    now: u64,
) -> bool {
    &&& post.len() == pre.len()
    &&& (forall|k: int| 0 <= k < pre.len() ==> spec_same_config(#[trigger] post[k], pre[k]))
    &&& (forall|k: int|
        0 <= k < pre.len() ==> (#[trigger] post[k]).children@ == (if spec_name_in(
            names,
            pre[k].name@,
        ) {
            pre[k].children@.map_values(|c: ChildProcess| spec_stop_child(c, now))
        } else {
            pre[k].children@
        }))
}

/// What restarting the named groups does to the registry: every named
/// group's replicas enter Restarting with the signal time recorded,
/// everything else is untouched.
pub open spec fn spec_restarted_all(
    pre: Seq<Program>,
    post: Seq<Program>,
    names: Seq<Seq<char>>,
    now: u64,
) -> bool {
    &&& post.len() == pre.len()
    &&& (forall|k: int| 0 <= k < pre.len() ==> spec_same_config(#[trigger] post[k], pre[k]))
    &&& (forall|k: int|
        0 <= k < pre.len() ==> (#[trigger] post[k]).children@ == (if spec_name_in(
            names,
            pre[k].name@,
        ) {
            pre[k].children@.map_values(|c: ChildProcess| spec_restart_child(c, now))
        } else {
            pre[k].children@
        }))
}

/// The status lines of the groups, joined by the separator.
pub open spec fn spec_status_join(ps: Seq<Program>) -> Seq<char>
    decreases ps.len(),
{
    if ps.len() == 0 {
        Seq::empty()
    } else if ps.len() == 1 {
        spec_status_line(ps[0])
    } else {
        spec_status_line(ps[0]) + " // "@ + spec_status_join(ps.drop_first())
    }
}

/// The whole status report: the joined lines and a final line break.
pub open spec fn spec_status_all(ps: Seq<Program>) -> Seq<char> {
    spec_status_join(ps) + "\n"@
}

/// Reporting one more group appends a separator and its line.
proof fn lemma_status_join_snoc(ps: Seq<Program>, x: Program)
    ensures
        spec_status_join(ps.push(x)) == (if ps.len() == 0 {
            spec_status_line(x)
        } else {
            spec_status_join(ps) + " // "@ + spec_status_line(x)
        }),
    decreases ps.len(),
{
    if ps.len() == 0 {
        assert(ps.push(x).len() == 1);
        assert(ps.push(x)[0] == x);
    } else {
        lemma_status_join_snoc(ps.drop_first(), x);
        assert(ps.push(x).drop_first() =~= ps.drop_first().push(x));
        assert(ps.push(x)[0] == ps[0]);
        if ps.len() == 1 {
            assert(spec_status_join(ps.push(x)) =~= spec_status_join(ps) + " // "@
                + spec_status_line(x));
        } else {
            assert(spec_status_line(ps[0]) + " // "@ + (spec_status_join(ps.drop_first()) + " // "@
                + spec_status_line(x)) =~= (spec_status_line(ps[0]) + " // "@ + spec_status_join(
                ps.drop_first(),
            )) + " // "@ + spec_status_line(x));
        }
    }
}

/// How the dispatcher answers one control command: a response to write back
/// and the spawns to perform, or the request to reload the configuration,
/// which the caller applies by loading the file and calling
/// [`Programs::update_config_with_config`].
#[derive(Debug)]
pub enum Dispatch {
    /// Write this response back; perform these spawns, one entry per child,
    /// each naming the group to spawn for.
    Reply(String, Vec<usize>),
    /// Load a fresh configuration and apply it to the registry.
    ReloadRequested,
}

/// Validity of a freshly deserialized configuration: unique program keys,
/// at least one replica wanted everywhere, and well-formed masks.
pub open spec fn spec_entries_valid(es: Seq<(String, Program)>) -> bool {
    &&& (forall|i: int, j: int| 0 <= i < j < es.len() ==> es[i].0@ != es[j].0@)
    &&& (forall|i: int| 0 <= i < es.len() ==> (#[trigger] es[i]).1.num_procs >= 1)
    &&& (forall|i: int| 0 <= i < es.len() ==> spec_valid_umask((#[trigger] es[i]).1.umask@))
}

impl Programs {
    /// One status report over every group, in registry order.
    pub fn status(&self) -> (r: String)
        ensures
            r@ == spec_status_all(self.programs@),
    {
        let mut s = String::new();
        proof {
            assert(self.programs@.take(0) =~= Seq::<Program>::empty());
            assert(s@ + spec_status_join(self.programs@.take(0)) =~= s@);
        }
        let mut i: usize = 0;
        while i < self.programs.len()
            invariant
                i <= self.programs@.len(),
                s@ == spec_status_join(self.programs@.take(i as int)),
            decreases self.programs@.len() - i,
        {
            let ghost sofar = s@;
            if i > 0 {
                s.append(" // ");
            }
            let line = self.programs[i].status();
            s.append(line.as_str());
            proof {
                assert(self.programs@.take(i + 1int) =~= self.programs@.take(i as int).push(
                    self.programs@[i as int],
                ));
                lemma_status_join_snoc(self.programs@.take(i as int), self.programs@[i as int]);
                if i > 0 {
                    assert(sofar + " // "@ + line@ =~= spec_status_join(self.programs@.take(
                        i + 1int,
                    )));
                } else {
                    assert(sofar + line@ =~= spec_status_join(self.programs@.take(i + 1int)));
                }
            }
            i += 1;
        }
        proof {
            assert(self.programs@.take(self.programs@.len() as int) =~= self.programs@);
        }
        s.append("\n");
        s
    }

    /// Routes one parsed control command into the registry. Quit never
    /// reaches the dispatcher: the caller handles it before dispatching.
    pub fn handle_action(&mut self, action: Action, now: u64) -> (r: Dispatch)
        requires
            !(action is Quit),
        ensures
            match action {
                Action::Start(ps) => *final(self) == *old(self) && (r matches Dispatch::Reply(
                    m,
                    plan,
                ) && m@ == "Programs started\n"@ && plan@ == spec_start_plan(
                    old(self).programs@,
                    Some(ps.deep_view()),
                    Origin::CLI,
                )),
                Action::Stop(ps) => spec_stopped_all(
                    old(self).programs@,
                    final(self).programs@,
                    ps.deep_view(),
                    now,
                ) && (r matches Dispatch::Reply(m, plan) && m@ == "Programs stopped\n"@
                    && plan@.len() == 0),
                Action::Restart(ps) => spec_restarted_all(
                    old(self).programs@,
                    final(self).programs@,
                    ps.deep_view(),
                    now,
                ) && (r matches Dispatch::Reply(m, plan) && m@ == "Programs restarted\n"@
                    && plan@.len() == 0),
                Action::Status => *final(self) == *old(self) && (r matches Dispatch::Reply(m, plan)
                    && m@ == spec_status_all(old(self).programs@) && plan@.len() == 0),
                Action::Reload => *final(self) == *old(self) && r is ReloadRequested,
                Action::Quit => true,
            },
    {
        match action {
            Action::Start(ps) => {
                let plan = self.start(&ps);
                Dispatch::Reply(String::from_str("Programs started\n"), plan)
            },
            Action::Stop(ps) => {
                self.stop(&ps, now);
                Dispatch::Reply(String::from_str("Programs stopped\n"), Vec::new())
            },
            Action::Restart(ps) => {
                self.restart(&ps, now);
                Dispatch::Reply(String::from_str("Programs restarted\n"), Vec::new())
            },
            Action::Status => Dispatch::Reply(self.status(), Vec::new()),
            Action::Reload => Dispatch::ReloadRequested,
            Action::Quit => Dispatch::ReloadRequested,
        }
    }

    /// Builds the registry from deserialized configuration entries, stamping
    /// each program with its key — the key is authoritative over any
    /// redundant name field. Rejected as a deserialization error: duplicate
    /// keys, a desired replica count of zero, and a mask that is not octal.
    pub fn from_entries(entries: Vec<(String, Program)>) -> (r: Result<Programs, Error>)
        ensures
            match r {
                Ok(ps) => {
                    &&& spec_entries_valid(entries@)
                    &&& ps.programs@.len() == entries@.len()
                    &&& (forall|i: int|
                        0 <= i < entries@.len() ==> #[trigger] ps.programs@[i] == (Program {
                            name: entries@[i].0,
                            ..entries@[i].1
                        }))
                    &&& ps.well_formed()
                },
                Err(e) => !spec_entries_valid(entries@) && e is De,
            },
    {
        let mut i: usize = 0;
        while i < entries.len()
            invariant
                i <= entries@.len(),
                forall|k: int, l: int| 0 <= k < l < i ==> entries@[k].0@ != entries@[l].0@,
                forall|k: int| 0 <= k < i ==> (#[trigger] entries@[k]).1.num_procs >= 1,
                forall|k: int| 0 <= k < i ==> spec_valid_umask((#[trigger] entries@[k]).1.umask@),
            decreases entries@.len() - i,
        {
            if entries[i].1.num_procs == 0 {
                return Err(Error::De(String::from_str("a program wants no replicas")));
            }
            if parse_umask(&entries[i].1.umask).is_none() {
                return Err(Error::De(String::from_str("a umask is not a valid octal string")));
            }
            let mut j: usize = 0;
            while j < i
                invariant
                    j <= i < entries@.len(),
                    forall|k: int| 0 <= k < j ==> entries@[k].0@ != entries@[i as int].0@,
                decreases i - j,
            {
                if entries[j].0 == entries[i].0 {
                    return Err(Error::De(String::from_str("two programs share a name")));
                }
                j += 1;
            }
            i += 1;
        }
        let ghost es0 = entries@;
        let mut entries = entries;
        let total = entries.len();
        let mut programs: Vec<Program> = Vec::new();
        let mut k: usize = 0;
        while entries.len() > 0
            invariant
                total == es0.len(),
                k == es0.len() - entries@.len(),
                0 <= k <= es0.len(),
                entries@ == es0.skip(k as int),
                programs@.len() == k,
                forall|m: int|
                    0 <= m < k ==> #[trigger] programs@[m] == (Program {
                        name: es0[m].0,
                        ..es0[m].1
                    }),
            decreases entries@.len(),
        {
            let (key, mut p) = entries.remove(0);
            proof {
                assert(es0.skip(k as int)[0] == es0[k as int]);
                assert(es0.skip(k as int).remove(0) =~= es0.skip(k + 1int));
            }
            p.name = key;
            programs.push(p);
            k += 1;
        }
        let ps = Programs { programs };
        proof {
            assert forall|a: int, b: int| 0 <= a < b < ps.programs@.len() implies (
            #[trigger] ps.programs@[a]).name@ != (#[trigger] ps.programs@[b]).name@ by {
                assert(ps.programs@[a].name == es0[a].0);
                assert(ps.programs@[b].name == es0[b].0);
            }
        }
        Ok(ps)
    }

    /// The configuration filename inside an environment value: its first
    /// whitespace token. No token at all, or anything after the first, is a
    /// hard error.
    pub fn config_path(value: &String) -> (r: Result<String, Error>)
        ensures
            ({
                let toks = crate::strutil::spec_tokens(value@);
                match r {
                    Ok(p) => toks.len() == 1 && p@ == toks[0],
                    Err(e) => (toks.len() == 0 && e is NoFilenameProvided) || (toks.len() > 1
                        && e is TooManyArguments),
                }
            }),
    {
        let toks = crate::strutil::tokenize(value.as_str());
        proof {
            assert(toks.deep_view().len() == toks@.len());
        }
        if toks.len() == 0 {
            Err(Error::NoFilenameProvided)
        } else if toks.len() > 1 {
            Err(Error::TooManyArguments)
        } else {
            proof {
                assert(toks.deep_view()[0] == toks@[0]@);
            }
            Ok(toks[0].clone())
        }
    }
}

} // verus!
