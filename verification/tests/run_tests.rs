use schedulerutils::run::Action;
use schedulerutils::run::Event;
use schedulerutils::run::Run;
use schedulerutils::run::RunCommandCfg;
use schedulerutils::run::POLL_INTERVAL_MS;

fn cfg(
    task: &str,
    threads: usize,
    thread_wait: u64,
    timeout: u64,
    cgroup: &str,
    cpuset: &str,
    weight: u64,
    cookie_count: u64,
) -> RunCommandCfg {
    RunCommandCfg {
        task: task.to_string(),
        threads,
        thread_wait,
        timeout,
        cgroup: cgroup.to_string(),
        cpuset: cpuset.to_string(),
        weight,
        cookie_count,
    }
}

/// Drive the machine with the given events and collect every emitted action.
fn drive(config: RunCommandCfg, events: Vec<Event>) -> Vec<Action> {
    let mut machine = Run::new(config);
    let mut actions: Vec<Action> = Vec::new();
    for event in events {
        let (next, action) = machine.step(event);
        machine = next;
        actions.push(action);
    }
    actions
}

#[test]
fn scenario_trivial_run_makes_no_cgroup_or_cookie_calls() {
    // One thread, no cookies, no cgroup: spawn, discover, wait, finish.
    let actions = drive(
        cfg("echo hi", 1, 1000, 0, "", "", 0, 0),
        vec![
            Event::Start,
            Event::Spawned { pid: 42 },
            Event::ThreadsListed { tids: vec![42], elapsed_ms: 0 },
            Event::OutputCollected { stdout: "hi\n".to_string(), stderr: String::new() },
        ],
    );
    assert_eq!(
        actions[0],
        Action::Spawn { tokens: vec!["echo".to_string(), "hi".to_string()] }
    );
    assert_eq!(actions[1], Action::ListThreads { pid: 42 });
    assert_eq!(actions[2], Action::WaitCollect);
    match &actions[3] {
        Action::Finish { outcome } => {
            assert_eq!(outcome.pid, 42);
            assert_eq!(outcome.stdout, "hi\n");
            assert_eq!(outcome.stderr, "");
        }
        other => panic!("expected Finish, got {:?}", other),
    }
    for a in actions.iter() {
        assert!(!matches!(
            a,
            Action::CreateCgroup { .. }
                | Action::AddTaskToCgroup { .. }
                | Action::SetWeight { .. }
                | Action::SetCpuAffinity { .. }
                | Action::CreateCookieGroups { .. }
                | Action::GetCookie { .. }
        ));
    }
}

#[test]
fn scenario_four_threads_two_cookie_groups() {
    // Four discovered threads into two groups: [ids[0], ids[2]] and
    // [ids[1], ids[3]], then one cookie read back per thread in order.
    let ids: Vec<i32> = vec![101, 102, 103, 104];
    let actions = drive(
        cfg("work", 4, 1000, 0, "", "", 0, 2),
        vec![
            Event::Start,
            Event::Spawned { pid: 100 },
            Event::ThreadsListed { tids: ids.clone(), elapsed_ms: 5 },
            Event::CookiesCreated,
            Event::CookieSeen { cookie: 7 },
            Event::CookieSeen { cookie: 8 },
            Event::CookieSeen { cookie: 7 },
        ],
    );
    assert_eq!(
        actions[2],
        Action::CreateCookieGroups { groups: vec![vec![101, 103], vec![102, 104]] }
    );
    assert_eq!(actions[3], Action::GetCookie { tid: 101 });
    assert_eq!(actions[4], Action::GetCookie { tid: 102 });
    assert_eq!(actions[5], Action::GetCookie { tid: 103 });
    assert_eq!(actions[6], Action::GetCookie { tid: 104 });
}

#[test]
fn scenario_timeout_kills_exactly_once() {
    // A bounded wait that expires: one Kill, then the final reap still
    // produces an outcome with whatever output was captured.
    let actions = drive(
        cfg("sleep 10", 1, 100, 100, "", "", 0, 0),
        vec![
            Event::Start,
            Event::Spawned { pid: 9 },
            Event::ThreadsListed { tids: vec![9], elapsed_ms: 0 },
            Event::ChildRunning,
            Event::Killed,
            Event::OutputCollected { stdout: String::new(), stderr: String::new() },
        ],
    );
    assert_eq!(actions[2], Action::WaitChildTimeout { ms: 100 });
    assert_eq!(actions[3], Action::Kill);
    assert_eq!(actions[4], Action::WaitCollect);
    match &actions[5] {
        Action::Finish { outcome } => {
            assert_eq!(outcome.pid, 9);
            assert_eq!(outcome.stdout, "");
        }
        other => panic!("expected Finish, got {:?}", other),
    }
    let kills = actions.iter().filter(|a| matches!(a, Action::Kill)).count();
    assert_eq!(kills, 1);
}

#[test]
fn scenario_child_exits_within_timeout() {
    let actions = drive(
        cfg("true", 1, 100, 5000, "", "", 0, 0),
        vec![
            Event::Start,
            Event::Spawned { pid: 5 },
            Event::ThreadsListed { tids: vec![5], elapsed_ms: 0 },
            Event::ChildExited,
            Event::OutputCollected { stdout: String::new(), stderr: String::new() },
        ],
    );
    assert_eq!(actions[2], Action::WaitChildTimeout { ms: 5000 });
    assert_eq!(actions[3], Action::WaitCollect);
    assert!(!actions.iter().any(|a| matches!(a, Action::Kill)));
}

#[test]
fn unbounded_run_never_waits_boundedly_and_never_kills() {
    let actions = drive(
        cfg("true", 1, 100, 0, "", "", 0, 0),
        vec![
            Event::Start,
            Event::Spawned { pid: 5 },
            Event::ThreadsListed { tids: vec![5], elapsed_ms: 0 },
            Event::OutputCollected { stdout: String::new(), stderr: String::new() },
        ],
    );
    assert!(!actions
        .iter()
        .any(|a| matches!(a, Action::Kill | Action::WaitChildTimeout { .. })));
}

#[test]
fn scenario_cgroup_calls_come_in_order() {
    // Create the cgroup first, then spawn; enroll the process and every
    // thread before the weight, and the weight before the affinity.
    let actions = drive(
        cfg("work", 2, 1000, 0, "grpA", "0-1", 50, 0),
        vec![
            Event::Start,
            Event::CgroupCreated,
            Event::Spawned { pid: 7 },
            Event::ThreadsListed { tids: vec![7, 8], elapsed_ms: 0 },
            Event::TaskAdded,
            Event::TaskAdded,
            Event::TaskAdded,
            Event::WeightSet,
            Event::AffinitySet,
            Event::OutputCollected { stdout: String::new(), stderr: String::new() },
        ],
    );
    assert_eq!(actions[0], Action::CreateCgroup { name: "grpA".to_string() });
    assert!(matches!(actions[1], Action::Spawn { .. }));
    assert_eq!(actions[2], Action::ListThreads { pid: 7 });
    assert_eq!(actions[3], Action::AddTaskToCgroup { tid: 7 });
    assert_eq!(actions[4], Action::AddTaskToCgroup { tid: 7 });
    assert_eq!(actions[5], Action::AddTaskToCgroup { tid: 8 });
    assert_eq!(actions[6], Action::SetWeight { weight: 50 });
    assert_eq!(actions[7], Action::SetCpuAffinity { cpuset: "0-1".to_string() });
    assert_eq!(actions[8], Action::WaitCollect);
}

#[test]
fn empty_cpuset_skips_affinity() {
    let actions = drive(
        cfg("work", 1, 1000, 0, "grpB", "", 10, 0),
        vec![
            Event::Start,
            Event::CgroupCreated,
            Event::Spawned { pid: 3 },
            Event::ThreadsListed { tids: vec![3], elapsed_ms: 0 },
            Event::TaskAdded,
            Event::TaskAdded,
            Event::WeightSet,
        ],
    );
    assert_eq!(actions[5], Action::SetWeight { weight: 10 });
    assert_eq!(actions[6], Action::WaitCollect);
    assert!(!actions.iter().any(|a| matches!(a, Action::SetCpuAffinity { .. })));
}

#[test]
fn discovery_polls_until_count_reached() {
    let actions = drive(
        cfg("work", 2, 500, 0, "", "", 0, 1),
        vec![
            Event::Start,
            Event::Spawned { pid: 20 },
            Event::ThreadsListed { tids: vec![20], elapsed_ms: 0 },
            Event::Slept,
            Event::ThreadsListed { tids: vec![20, 21], elapsed_ms: 100 },
        ],
    );
    assert_eq!(actions[2], Action::SleepPoll { ms: POLL_INTERVAL_MS });
    assert_eq!(actions[3], Action::ListThreads { pid: 20 });
    assert_eq!(
        actions[4],
        Action::CreateCookieGroups { groups: vec![vec![20, 21]] }
    );
}

#[test]
fn discovery_deadline_proceeds_with_partial_set() {
    // The budget is spent with only one of two threads seen: the run
    // proceeds with the partial set instead of failing.
    let actions = drive(
        cfg("work", 2, 500, 0, "", "", 0, 1),
        vec![
            Event::Start,
            Event::Spawned { pid: 30 },
            Event::ThreadsListed { tids: vec![30], elapsed_ms: 600 },
        ],
    );
    assert_eq!(
        actions[2],
        Action::CreateCookieGroups { groups: vec![vec![30]] }
    );
}

#[test]
fn discovery_never_returns_more_than_expected() {
    // Three ids appear at once but only two were asked for: the set is
    // truncated to the expected count.
    let actions = drive(
        cfg("work", 2, 500, 0, "", "", 0, 1),
        vec![
            Event::Start,
            Event::Spawned { pid: 40 },
            Event::ThreadsListed { tids: vec![40, 41, 42], elapsed_ms: 0 },
        ],
    );
    assert_eq!(
        actions[2],
        Action::CreateCookieGroups { groups: vec![vec![40, 41]] }
    );
}

#[test]
fn zero_cookie_groups_skip_assignment_entirely() {
    let actions = drive(
        cfg("work", 2, 500, 0, "", "", 0, 0),
        vec![
            Event::Start,
            Event::Spawned { pid: 50 },
            Event::ThreadsListed { tids: vec![50, 51], elapsed_ms: 0 },
            Event::OutputCollected { stdout: String::new(), stderr: String::new() },
        ],
    );
    assert!(!actions.iter().any(|a| matches!(
        a,
        Action::CreateCookieGroups { .. } | Action::GetCookie { .. }
    )));
    assert!(matches!(actions[3], Action::Finish { .. }));
}

#[test]
fn cookie_groups_created_even_for_empty_thread_set() {
    // No thread appeared before the deadline, but the group count is
    // non-zero: the (empty) group creation call is still made, and no
    // cookie is read back.
    let actions = drive(
        cfg("work", 1, 500, 0, "", "", 0, 3),
        vec![
            Event::Start,
            Event::Spawned { pid: 60 },
            Event::ThreadsListed { tids: vec![], elapsed_ms: 600 },
            Event::CookiesCreated,
        ],
    );
    assert_eq!(actions[2], Action::CreateCookieGroups { groups: vec![] });
    assert_eq!(actions[3], Action::WaitCollect);
}

#[test]
fn machine_reports_done_only_after_finish() {
    let machine = Run::new(cfg("true", 1, 100, 0, "", "", 0, 0));
    assert!(!machine.is_done());
    let (machine, _) = machine.step(Event::Start);
    let (machine, _) = machine.step(Event::Spawned { pid: 1 });
    let (machine, _) = machine.step(Event::ThreadsListed { tids: vec![1], elapsed_ms: 0 });
    assert!(!machine.is_done());
    let (machine, action) = machine.step(Event::OutputCollected {
        stdout: String::new(),
        stderr: String::new(),
    });
    assert!(matches!(action, Action::Finish { .. }));
    assert!(machine.is_done());
}
