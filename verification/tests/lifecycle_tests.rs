use taskmaster::actions::Action;
use taskmaster::childprocess::ChildExitStatus;
use taskmaster::childprocess::ChildProcess;
use taskmaster::childprocess::ProgramState;
use taskmaster::childprocess::SpawnOutcome;
use taskmaster::error::Error;
use taskmaster::program::AutoRestart;
use taskmaster::program::Origin;
use taskmaster::program::Output;
use taskmaster::program::Program;
use taskmaster::program::StopSignal;
use taskmaster::program::structural_eq;
use taskmaster::programs::Dispatch;
use taskmaster::programs::Programs;

fn config(name: &str, num_procs: u8) -> Program {
    Program {
        name: String::from(name),
        cmd: (String::from("/bin/sleep"), vec![String::from("10")]),
        num_procs,
        auto_start: true,
        auto_restart: AutoRestart::Unexpected,
        exitcodes: vec![0],
        start_retries: 3,
        start_secs: 5,
        stop_signal: StopSignal::Term,
        stop_time: 1,
        env: None,
        working_dir: String::from("."),
        umask: String::from("0o022"),
        stdout: Output::Auto,
        stderr: Output::Auto,
        children: vec![],
    }
}

// A child that stays alive is promoted to Running and a clean exit with an
// expected code ends in Exited.
#[test]
fn happy_path_to_exited() {
    let mut group = config("web", 1);
    assert_eq!(group.start_process(Origin::Config), 1);
    group.push_spawn(SpawnOutcome::Attached(1111), 0);
    assert_eq!(group.children[0].state, ProgramState::Starting);

    let mut c = group.children.remove(0);
    c.transition(&group, ChildExitStatus::Running, 1);
    assert_eq!(c.state, ProgramState::Running);
    assert_eq!(c.restart_count, 0);
    for now in 2..5 {
        c.transition(&group, ChildExitStatus::Running, now);
        assert_eq!(c.state, ProgramState::Running);
    }
    c.transition(&group, ChildExitStatus::Exited(0), 10);
    assert_eq!(c.state, ProgramState::Exited);

    group.children.push(c);
    group.reconcile_state(10);
    assert_eq!(group.status(), "web : Exited");
}

// A command that always fails is retried `start_retries` times — four spawn
// attempts in all — and ends Fatal with the retries consumed.
#[test]
fn crash_loop_to_fatal() {
    let mut group = config("crashy", 1);
    group.cmd = (String::from("/bin/false"), vec![]);
    let mut spawns = 0;

    group.push_spawn(SpawnOutcome::Attached(2000), 0);
    spawns += 1;
    let mut c = group.children.remove(0);

    let mut now = 1;
    loop {
        let eff = c.transition(&group, ChildExitStatus::Exited(1), now);
        if c.state == ProgramState::Fatal {
            assert!(!eff.respawn);
            break;
        }
        assert_eq!(c.state, ProgramState::Backoff);
        assert!(eff.respawn);
        c.attach_spawn(SpawnOutcome::Attached(2000 + spawns), now);
        spawns += 1;
        now += 1;
    }
    assert_eq!(spawns, 4);
    assert_eq!(c.restart_count, 3);
    assert_eq!(c.state, ProgramState::Fatal);
}

// A restarted Running replica goes Restarting, then Starting with one more
// attempt counted, then Running again.
#[test]
fn manual_restart_sequence() {
    let group = config("web", 1);
    let mut c = ChildProcess {
        child: Some(3000),
        state: ProgramState::Restarting,
        exit_status: ChildExitStatus::Running,
        start_secs: Some(0),
        end_time: Some(5),
        restart_count: 0,
    };
    // The stop signal has not taken effect yet: the replica waits.
    c.transition(&group, ChildExitStatus::Running, 6);
    assert_eq!(c.state, ProgramState::Restarting);
    // The process exits: one more attempt is counted and a respawn demanded.
    let eff = c.transition(&group, ChildExitStatus::Exited(0), 7);
    assert_eq!(c.state, ProgramState::Starting);
    assert_eq!(c.restart_count, 1);
    assert!(eff.respawn);
    c.attach_spawn(SpawnOutcome::Attached(3001), 7);
    // The fresh child proves alive: Running, with the counter reset.
    c.transition(&group, ChildExitStatus::Running, 8);
    assert_eq!(c.state, ProgramState::Running);
    assert_eq!(c.restart_count, 0);
}

// A stopped replica whose child ignores the stop signal is escalated to the
// kill signal once the grace window has elapsed.
#[test]
fn stop_escalates_to_killed() {
    let group = config("stubborn", 1);
    let mut c = ChildProcess {
        child: None,
        state: ProgramState::Stopping,
        exit_status: ChildExitStatus::Running,
        start_secs: Some(90),
        end_time: Some(100),
        restart_count: 0,
    };
    // Within the grace window nothing happens.
    let eff = c.transition(&group, ChildExitStatus::Running, 100);
    assert_eq!(c.state, ProgramState::Stopping);
    assert!(!eff.kill);
    // One second later the window (stop_time = 1) has elapsed.
    let eff = c.transition(&group, ChildExitStatus::Running, 101);
    assert_eq!(c.state, ProgramState::Killed);
    assert!(eff.kill);
}

// A reload that only raises num_procs keeps the existing replicas — and
// their operating-system identity — and only spawns the new tail.
#[test]
fn reload_preserves_pids() {
    let mut live = Programs { programs: vec![config("p", 2)] };
    live.programs[0].push_spawn(SpawnOutcome::Attached(100), 0);
    live.programs[0].push_spawn(SpawnOutcome::Attached(101), 0);

    let mut fresh = config("p", 3);
    fresh.children = vec![];
    let new_config = Programs { programs: vec![fresh] };

    let mut out = live.update_config_with_config(new_config, 50).unwrap();
    assert_eq!(out.programs[0].children.len(), 2);
    assert_eq!(out.programs[0].children[0].child, Some(100));
    assert_eq!(out.programs[0].children[1].child, Some(101));

    let plan = out.start_all();
    assert_eq!(plan, vec![0]);
    out.apply_spawn(0, SpawnOutcome::Attached(102), 50);
    assert_eq!(out.programs[0].children.len(), 3);
    assert_eq!(out.programs[0].children[2].child, Some(102));
}

// A reload that omits a program kills its group and removes it from the
// registry; the others are untouched.
#[test]
fn reload_removes_program() {
    let mut q = config("q", 1);
    q.push_spawn(SpawnOutcome::Failed, 0);
    let mut p = config("p", 1);
    p.push_spawn(SpawnOutcome::Attached(700), 0);
    let mut live = Programs { programs: vec![p, q] };

    let new_config = Programs { programs: vec![config("p", 1)] };
    let out = live.update_config_with_config(new_config, 60).unwrap();

    assert_eq!(out.programs.len(), 1);
    assert_eq!(out.programs[0].name, "p");
    assert_eq!(out.programs[0].children.len(), 1);
    assert_eq!(out.programs[0].children[0].child, Some(700));
    assert!(out.index_of(&String::from("q")).is_none());
    // Nothing of the removed group survives in the old registry either.
    for g in &live.programs {
        assert_eq!(g.children.len(), 0);
    }
}

// The environment overlay compares as a mapping: entry order never counts
// as a structural change, so a reload with reordered entries keeps the
// replicas; a changed value is structural.
#[test]
fn env_order_is_irrelevant() {
    let entry = |k: &str, v: &str| (String::from(k), String::from(v));
    let mut a = config("p", 1);
    a.env = Some(vec![entry("A", "1"), entry("B", "2")]);
    let mut b = config("p", 1);
    b.env = Some(vec![entry("B", "2"), entry("A", "1")]);
    assert!(structural_eq(&a, &b));

    let mut c = config("p", 1);
    c.env = Some(vec![entry("A", "1"), entry("B", "3")]);
    assert!(!structural_eq(&a, &c));
    let mut d = config("p", 1);
    d.env = Some(vec![entry("A", "1")]);
    assert!(!structural_eq(&a, &d));
    // An absent overlay only equals an absent one.
    let mut e = config("p", 1);
    e.env = None;
    assert!(!structural_eq(&a, &e));

    let mut live = Programs { programs: vec![a] };
    live.programs[0].push_spawn(SpawnOutcome::Attached(300), 0);
    let mut fresh = b;
    fresh.children = vec![];
    let out = live.update_config_with_config(Programs { programs: vec![fresh] }, 10).unwrap();
    assert_eq!(out.programs[0].children.len(), 1);
    assert_eq!(out.programs[0].children[0].child, Some(300));
}

// An operator start ignores auto_start: a group that does not start on
// configuration load still spawns its replicas on the start command.
#[test]
fn start_program_02() {
    let mut sleep = config("sleep", 1);
    sleep.auto_start = false;
    let mut ps = Programs { programs: vec![sleep] };
    assert!(ps.start_all().is_empty());
    let plan = ps.start(&vec![String::from("sleep")]);
    assert_eq!(plan, vec![0]);
    ps.apply_spawn(0, SpawnOutcome::Attached(400), 0);
    assert_eq!(ps.programs[0].children[0].state, ProgramState::Starting);
}

// A reload that only lowers num_procs keeps the surviving prefix and drops
// the excess tail.
#[test]
fn reload_shrinks_group() {
    let mut live = Programs { programs: vec![config("p", 2)] };
    live.programs[0].push_spawn(SpawnOutcome::Failed, 0);
    live.programs[0].push_spawn(SpawnOutcome::Failed, 1);
    let new_config = Programs { programs: vec![config("p", 1)] };
    let out = live.update_config_with_config(new_config, 80).unwrap();
    assert_eq!(out.programs[0].children.len(), 1);
    assert_eq!(out.programs[0].children[0].start_secs, Some(0));
    assert!(out.start_all().is_empty());
}

// A structural change (here: the expected exit codes) tears the group down.
#[test]
fn reload_structural_change_respawns() {
    let mut live = Programs { programs: vec![config("p", 1)] };
    live.programs[0].push_spawn(SpawnOutcome::Failed, 0);
    let mut changed = config("p", 1);
    changed.exitcodes = vec![3];
    let new_config = Programs { programs: vec![changed] };
    let out = live.update_config_with_config(new_config, 70).unwrap();
    assert_eq!(out.programs[0].children.len(), 0);
    assert_eq!(out.start_all(), vec![0]);
}

// A replica that has consumed its retries turns Fatal on the next unexpected
// exit, and the counter never passes one beyond the budget.
#[test]
fn exhausted_retries_turn_fatal() {
    let group = config("web", 1);
    let mut c = ChildProcess {
        child: None,
        state: ProgramState::Backoff,
        exit_status: ChildExitStatus::NonExistent,
        start_secs: Some(0),
        end_time: None,
        restart_count: 3,
    };
    c.transition(&group, ChildExitStatus::Exited(9), 1);
    assert_eq!(c.state, ProgramState::Fatal);
    assert_eq!(c.restart_count, 3);
}

// Every entry into Running resets the restart counter.
#[test]
fn running_resets_counter() {
    let group = config("web", 1);
    let mut c = ChildProcess {
        child: Some(4000),
        state: ProgramState::Backoff,
        exit_status: ChildExitStatus::Running,
        start_secs: Some(0),
        end_time: None,
        restart_count: 2,
    };
    c.transition(&group, ChildExitStatus::Running, 1);
    assert_eq!(c.state, ProgramState::Running);
    assert_eq!(c.restart_count, 0);
}

// The reconciliation promotes every sibling to the highest-priority dominant
// state present.
#[test]
fn reconcile_priority_order() {
    let slot = |state: ProgramState| ChildProcess {
        child: None,
        state,
        exit_status: ChildExitStatus::NonExistent,
        start_secs: None,
        end_time: None,
        restart_count: 0,
    };
    let mut group = config("web", 3);
    group.children = vec![
        slot(ProgramState::Pending),
        slot(ProgramState::Fatal),
        slot(ProgramState::Running),
    ];
    let dom = group.reconcile_state(5);
    assert_eq!(dom, Some(ProgramState::Fatal));
    for c in &group.children {
        assert_eq!(c.state, ProgramState::Fatal);
    }

    let mut group2 = config("db", 2);
    group2.children = vec![slot(ProgramState::Stopped), slot(ProgramState::Killed)];
    let dom2 = group2.reconcile_state(5);
    assert_eq!(dom2, Some(ProgramState::Killed));
    for c in &group2.children {
        assert_eq!(c.state, ProgramState::Killed);
    }

    let mut group3 = config("cache", 2);
    group3.children = vec![slot(ProgramState::Running), slot(ProgramState::Exited)];
    assert_eq!(group3.reconcile_state(5), None);
    assert_eq!(group3.children[0].state, ProgramState::Running);
    assert_eq!(group3.children[1].state, ProgramState::Exited);
}

// A terminal replica never moves on a check, whatever could be sampled.
#[test]
fn terminal_states_are_stable() {
    let group = config("web", 1);
    for state in [
        ProgramState::Stopped,
        ProgramState::Exited,
        ProgramState::Fatal,
        ProgramState::Killed,
        ProgramState::Pending,
    ] {
        let mut c = ChildProcess {
            child: Some(5000),
            state,
            exit_status: ChildExitStatus::Exited(1),
            start_secs: Some(0),
            end_time: Some(0),
            restart_count: 1,
        };
        let before = c.clone();
        let r = c.check(&group, 99).unwrap();
        assert!(!r);
        assert_eq!(c.state, before.state);
        assert_eq!(c.child, before.child);
        assert_eq!(c.restart_count, before.restart_count);
        let eff = c.transition(&group, ChildExitStatus::Exited(1), 99);
        assert!(!eff.kill && !eff.respawn);
        assert_eq!(c.state, state);
    }
}

// A group check drives each replica from its recorded exit status and
// reports the respawns it needs.
#[test]
fn group_check_collects_respawns() {
    let mut a = config("a", 1);
    a.children = vec![ChildProcess {
        child: Some(600),
        state: ProgramState::Starting,
        exit_status: ChildExitStatus::Exited(0),
        start_secs: Some(0),
        end_time: None,
        restart_count: 0,
    }];
    let plan = a.check(10).unwrap();
    assert_eq!(plan.len(), 0);
    assert_eq!(a.children[0].state, ProgramState::Exited);

    let mut b = config("b", 1);
    b.children = vec![ChildProcess {
        child: None,
        state: ProgramState::Backoff,
        exit_status: ChildExitStatus::NonExistent,
        start_secs: Some(0),
        end_time: None,
        restart_count: 1,
    }];
    let plan = b.check(10).unwrap();
    assert_eq!(plan, vec![0]);
    assert_eq!(b.children[0].restart_count, 2);
    b.attach_respawn(0, SpawnOutcome::Attached(601), 10);
    assert_eq!(b.children[0].child, Some(601));
}

// A registry check walks every group and names the slots to respawn.
#[test]
fn registry_check_and_attach() {
    let mut ps = Programs { programs: vec![config("a", 1), config("b", 1)] };
    ps.programs[1].children = vec![ChildProcess {
        child: None,
        state: ProgramState::Backoff,
        exit_status: ChildExitStatus::NonExistent,
        start_secs: Some(0),
        end_time: None,
        restart_count: 0,
    }];
    let slots = ps.check(10).unwrap();
    assert_eq!(slots.len(), 1);
    assert_eq!(slots[0].program, 1);
    assert_eq!(slots[0].replica, 0);
    ps.attach_respawn(slots[0], SpawnOutcome::Attached(900), 10);
    assert_eq!(ps.programs[1].children[0].child, Some(900));
    assert_eq!(ps.programs[1].children[0].state, ProgramState::Backoff);
}

// A spawn that fails leaves a Backoff slot with the attempt counted, as it
// appears in status output; checks keep retrying it.
#[test]
fn failed_spawn_is_retried() {
    let mut group = config("f", 1);
    group.start_secs = 0;
    group.push_spawn(SpawnOutcome::Failed, 0);
    assert_eq!(group.children[0].state, ProgramState::Backoff);
    assert_eq!(group.children[0].restart_count, 1);
    assert_eq!(group.children[0].child, None);

    let plan = group.check(1).unwrap();
    assert_eq!(plan, vec![0]);
    assert_eq!(group.children[0].restart_count, 2);
    group.attach_respawn(0, SpawnOutcome::Failed, 1);
    let plan = group.check(2).unwrap();
    assert_eq!(plan, vec![0]);
    assert_eq!(group.children[0].restart_count, 3);
    group.attach_respawn(0, SpawnOutcome::Failed, 2);
    let plan = group.check(3).unwrap();
    assert_eq!(plan.len(), 0);
    assert_eq!(group.children[0].state, ProgramState::Fatal);
}

// A pass over groups with nothing to consult the system about is owed
// success: empty groups, terminal replicas, and recorded exits never fail.
#[test]
fn check_owes_success_when_pinned() {
    let mut empty = Programs { programs: vec![] };
    assert!(empty.check(1).unwrap().is_empty());

    let mut ps = Programs { programs: vec![config("web", 1), config("db", 1)] };
    ps.programs[0].children = vec![ChildProcess {
        child: Some(800),
        state: ProgramState::Fatal,
        exit_status: ChildExitStatus::Exited(1),
        start_secs: Some(0),
        end_time: Some(0),
        restart_count: 3,
    }];
    ps.programs[1].children = vec![ChildProcess {
        child: Some(801),
        state: ProgramState::Running,
        exit_status: ChildExitStatus::Exited(0),
        start_secs: Some(0),
        end_time: None,
        restart_count: 0,
    }];
    let slots = ps.check(2).unwrap();
    assert!(slots.is_empty());
    assert_eq!(ps.programs[0].children[0].state, ProgramState::Fatal);
    assert_eq!(ps.programs[1].children[0].state, ProgramState::Exited);
}

// Stop and restart commands mark every replica of the named groups.
#[test]
fn stop_and_restart_mark_replicas() {
    let mut ps = Programs { programs: vec![config("web", 2), config("db", 1)] };
    ps.programs[0].push_spawn(SpawnOutcome::Failed, 0);
    ps.programs[0].push_spawn(SpawnOutcome::Failed, 0);
    ps.programs[1].push_spawn(SpawnOutcome::Failed, 0);

    ps.stop(&vec![String::from("web")], 5);
    assert_eq!(ps.programs[0].children[0].state, ProgramState::Stopping);
    assert_eq!(ps.programs[0].children[1].state, ProgramState::Stopping);
    assert_eq!(ps.programs[1].children[0].state, ProgramState::Backoff);

    ps.restart(&vec![String::from("db")], 6);
    assert_eq!(ps.programs[1].children[0].state, ProgramState::Restarting);
}

// A stopped slot with no process left reaches Stopped on the next check.
#[test]
fn stopping_empty_slot_becomes_stopped() {
    let mut group = config("s", 1);
    group.push_spawn(SpawnOutcome::Failed, 0);
    group.stop_processes(3);
    assert_eq!(group.children[0].state, ProgramState::Stopping);
    let plan = group.check(4).unwrap();
    assert_eq!(plan.len(), 0);
    assert_eq!(group.children[0].state, ProgramState::Stopped);
}

// The dispatcher routes commands and shapes its replies.
#[test]
fn dispatcher_routes_commands() {
    let mut ps = Programs { programs: vec![config("web", 1)] };
    match ps.handle_action(Action::Status, 1) {
        Dispatch::Reply(m, plan) => {
            assert_eq!(m, "web : Inactive program\n");
            assert!(plan.is_empty());
        }
        _ => panic!("status must reply"),
    }
    match ps.handle_action(Action::Start(vec![String::from("web")]), 1) {
        Dispatch::Reply(m, plan) => {
            assert_eq!(m, "Programs started\n");
            assert_eq!(plan, vec![0]);
        }
        _ => panic!("start must reply with a plan"),
    }
    ps.apply_spawn(0, SpawnOutcome::Failed, 1);
    match ps.handle_action(Action::Stop(vec![String::from("web")]), 2) {
        Dispatch::Reply(m, plan) => {
            assert_eq!(m, "Programs stopped\n");
            assert!(plan.is_empty());
            assert_eq!(ps.programs[0].children[0].state, ProgramState::Stopping);
        }
        _ => panic!("stop must reply"),
    }
    match ps.handle_action(Action::Reload, 3) {
        Dispatch::ReloadRequested => {}
        _ => panic!("reload must be handed back to the caller"),
    }
}

// Status lines join every group with the separator and end in a line break.
#[test]
fn registry_status_lines() {
    let mut ps = Programs { programs: vec![config("web", 1), config("db", 1)] };
    ps.programs[0].children = vec![ChildProcess {
        child: Some(1),
        state: ProgramState::Running,
        exit_status: ChildExitStatus::Running,
        start_secs: Some(0),
        end_time: None,
        restart_count: 0,
    }];
    assert_eq!(ps.status(), "web : Running // db : Inactive program\n");
}

// Waiting on a process that is not our child surfaces a wait error through
// the check, carried out by the real system call.
#[test]
fn wait_error_bubbles_up() {
    let group = config("w", 1);
    let mut c = ChildProcess {
        child: Some(1),
        state: ProgramState::Starting,
        exit_status: ChildExitStatus::Running,
        start_secs: Some(0),
        end_time: None,
        restart_count: 0,
    };
    match c.check(&group, 1) {
        Err(Error::WaitError(_)) => {}
        other => panic!("waiting on a foreign process must fail: {:?}", other),
    }
    match &c.exit_status {
        ChildExitStatus::WaitError(_) => {}
        other => panic!("the wait error must be recorded: {:?}", other),
    }
}

// Sending a signal records the signal time on the slot; the null signal
// reaches the real kill system call without disturbing anything.
#[test]
fn send_kill_records_time() {
    let mut c = ChildProcess {
        child: Some(1),
        state: ProgramState::Running,
        exit_status: ChildExitStatus::Running,
        start_secs: Some(0),
        end_time: None,
        restart_count: 0,
    };
    c.send_kill(0, 42);
    assert_eq!(c.end_time, Some(42));

    let mut empty = ChildProcess { child: None, ..c };
    empty.end_time = None;
    empty.send_kill(0, 43);
    assert_eq!(empty.end_time, None);
}

// Stop signals carry their operating-system numbers.
#[test]
fn stop_signal_numbers() {
    assert_eq!(StopSignal::Term.signal_number(), 15);
    assert_eq!(StopSignal::Usr1.signal_number(), 10);
    assert_eq!(StopSignal::Exit.signal_number(), 3);
}

// A backoff slot waits out the start window before it retries.
#[test]
fn backoff_waits_for_start_window() {
    let group = config("bw", 1);
    let mut c = ChildProcess {
        child: None,
        state: ProgramState::Backoff,
        exit_status: ChildExitStatus::NonExistent,
        start_secs: Some(100),
        end_time: None,
        restart_count: 1,
    };
    // Inside the window (start_secs = 5) nothing happens.
    let eff = c.transition(&group, ChildExitStatus::NonExistent, 102);
    assert_eq!(c.state, ProgramState::Backoff);
    assert_eq!(c.restart_count, 1);
    assert!(!eff.respawn);
    // Past the window the retry is attempted.
    let eff = c.transition(&group, ChildExitStatus::NonExistent, 105);
    assert!(eff.respawn);
    assert_eq!(c.restart_count, 2);
}
