//! The command orchestrator: a state machine that supervises one run.
//!
//! The machine owns every decision of the run: whether a cgroup is created,
//! when the child is spawned, how long thread discovery keeps polling, which
//! task id is enrolled next, how threads are partitioned into cookie groups,
//! and whether the completion wait is bounded by a timeout. The caller
//! performs each returned [`Action`] against the operating system and feeds
//! the outcome back as the next [`Event`]. A collaborator failure that the
//! run cannot absorb (spawn failure, cgroup write failure, cookie syscall
//! failure, undecodable output) is fatal: the caller aborts instead of
//! feeding an event.

use vstd::prelude::*;

use crate::partition::group_views;
use crate::partition::is_round_robin;
use crate::partition::partition_round_robin;
use crate::tokenize::is_tokenization;
use crate::tokenize::tokenize;

verus! {

/// Milliseconds slept between two polls of the thread listing, so discovery
/// never busy-spins.
pub const POLL_INTERVAL_MS: u64 = 100;

/// The immutable description of one run. Durations are in milliseconds.
#[derive(Debug)]
pub struct RunCommandCfg {
    /// The command line, split on single spaces: first token the executable,
    /// the rest its arguments.
    pub task: String,
    /// How many threads discovery waits for.
    pub threads: usize,
    /// Discovery wait budget in milliseconds.
    pub thread_wait: u64,
    /// Overall completion timeout in milliseconds; zero means no timeout.
    pub timeout: u64,
    /// Cgroup name; empty means no cgroup placement at all.
    pub cgroup: String,
    /// Cpuset specification; empty means no CPU pinning.
    pub cpuset: String,
    /// CPU weight written to the cgroup.
    pub weight: u64,
    /// Number of cookie groups; zero means no cookie assignment.
    pub cookie_count: u64,
}

/// The terminal artifact of a run: the child's id and captured output.
#[derive(Debug, Clone, PartialEq)]
pub struct RunOutcome {
    pub pid: u32,
    pub stdout: String,
    pub stderr: String,
}

/// One operation the caller must perform against the operating system.
#[derive(Debug, Clone, PartialEq)]
pub enum Action {
    /// Create the named cgroup.
    CreateCgroup { name: String },
    /// Spawn the command given by the tokens; the first is the executable.
    Spawn { tokens: Vec<String> },
    /// List the thread ids of the process, together with the milliseconds
    /// elapsed since discovery began.
    ListThreads { pid: u32 },
    /// Sleep between two discovery polls.
    SleepPoll { ms: u64 },
    /// Add the task id to the created cgroup.
    AddTaskToCgroup { tid: u64 },
    /// Set the cgroup's CPU weight.
    SetWeight { weight: u64 },
    /// Set the cgroup's cpuset.
    SetCpuAffinity { cpuset: String },
    /// Create one fresh scheduling cookie per group, shared by every thread
    /// id in that group.
    CreateCookieGroups { groups: Vec<Vec<i32>> },
    /// Read back the cookie of one thread id, for reporting.
    GetCookie { tid: i32 },
    /// Wait up to `ms` milliseconds for the child to exit.
    WaitChildTimeout { ms: u64 },
    /// Send the forced-termination signal to the child.
    Kill,
    /// Wait unboundedly for the child and collect its output.
    WaitCollect,
    /// The run is complete.
    Finish { outcome: RunOutcome },
}

/// The outcome of the previous action, fed back by the caller.
#[derive(Debug, Clone, PartialEq)]
pub enum Event {
    /// Begin the run.
    Start,
    /// The cgroup was created.
    CgroupCreated,
    /// The child was spawned and has this process id.
    Spawned { pid: u32 },
    /// One poll of the thread listing: the ids seen, and the milliseconds
    /// elapsed since discovery began.
    ThreadsListed { tids: Vec<i32>, elapsed_ms: u64 },
    /// The poll sleep finished.
    Slept,
    /// The task id was added to the cgroup.
    TaskAdded,
    /// The CPU weight was written.
    WeightSet,
    /// The cpuset was written.
    AffinitySet,
    /// The cookie groups were created.
    CookiesCreated,
    /// The cookie read back for the queried thread id.
    CookieSeen { cookie: u64 },
    /// The bounded wait saw the child exit in time.
    ChildExited,
    /// The bounded wait elapsed with the child still running.
    ChildRunning,
    /// The forced-termination signal was delivered.
    Killed,
    /// The final wait reaped the child and decoded its output.
    OutputCollected { stdout: String, stderr: String },
}

/// Where the run stands: which action is outstanding.
#[derive(Debug)]
pub enum Phase {
    Init,
    AwaitCgroup,
    AwaitSpawn,
    Polling { pid: u32 },
    PollSleeping { pid: u32 },
    Enrolling { pid: u32, tids: Vec<i32>, next: usize },
    AwaitWeight { pid: u32, tids: Vec<i32> },
    AwaitAffinity { pid: u32, tids: Vec<i32> },
    AwaitCookies { pid: u32, tids: Vec<i32> },
    ReadingCookies { pid: u32, tids: Vec<i32>, next: usize },
    AwaitWait { pid: u32 },
    AwaitKill { pid: u32 },
    AwaitOutput { pid: u32 },
    Done,
}

pub open spec fn is_cookie_action(a: Action) -> bool {
    a is CreateCookieGroups || a is GetCookie
}

pub open spec fn is_cgroup_action(a: Action) -> bool {
    a is CreateCgroup || a is AddTaskToCgroup || a is SetWeight || a is SetCpuAffinity
}

/// How many actions of `h` are cookie-assignment calls.
pub open spec fn count_cookie_actions(h: Seq<Action>) -> nat
    decreases h.len(),
{
    if h.len() == 0 {
        0
    } else {
        count_cookie_actions(h.drop_last()) + if is_cookie_action(h.last()) {
            1nat
        } else {
            0nat
        }
    }
}

/// How many actions of `h` are cgroup-controller calls.
pub open spec fn count_cgroup_actions(h: Seq<Action>) -> nat
    decreases h.len(),
{
    if h.len() == 0 {
        0
    } else {
        count_cgroup_actions(h.drop_last()) + if is_cgroup_action(h.last()) {
            1nat
        } else {
            0nat
        }
    }
}

/// How many actions of `h` are forced-termination signals.
pub open spec fn count_kills(h: Seq<Action>) -> nat
    decreases h.len(),
{
    if h.len() == 0 {
        0
    } else {
        count_kills(h.drop_last()) + if h.last() is Kill {
            1nat
        } else {
            0nat
        }
    }
}

/// How many actions of `h` are bounded waits.
pub open spec fn count_bounded_waits(h: Seq<Action>) -> nat
    decreases h.len(),
{
    if h.len() == 0 {
        0
    } else {
        count_bounded_waits(h.drop_last()) + if h.last() is WaitChildTimeout {
            1nat
        } else {
            0nat
        }
    }
}

proof fn lemma_counts_push(h: Seq<Action>, a: Action)
    ensures
        count_cookie_actions(h.push(a)) == count_cookie_actions(h) + if is_cookie_action(a) {
            1nat
        } else {
            0nat
        },
        count_cgroup_actions(h.push(a)) == count_cgroup_actions(h) + if is_cgroup_action(a) {
            1nat
        } else {
            0nat
        },
        count_kills(h.push(a)) == count_kills(h) + if a is Kill {
            1nat
        } else {
            0nat
        },
        count_bounded_waits(h.push(a)) == count_bounded_waits(h) + if a is WaitChildTimeout {
            1nat
        } else {
            0nat
        },
{
    assert(h.push(a).drop_last() =~= h);
    assert(h.push(a).last() == a);
}

/// Every thread id is non-negative, as the operating system's thread listing
/// guarantees.
pub open spec fn tids_nonneg(t: Seq<i32>) -> bool {
    forall|i: int| 0 <= i < t.len() ==> t[i] >= 0
}

/// A discovered thread set the run may carry: never more ids than the
/// expected count, and every id non-negative.
pub open spec fn tids_ok(cfg: RunCommandCfg, t: Seq<i32>) -> bool {
    t.len() <= cfg.threads && tids_nonneg(t)
}

/// The run's phase never contradicts its configuration.
pub open spec fn phase_wf(cfg: RunCommandCfg, phase: Phase) -> bool {
    match phase {
        Phase::Init => true,
        Phase::AwaitCgroup => cfg.cgroup@.len() > 0,
        Phase::AwaitSpawn => true,
        Phase::Polling { .. } => true,
        Phase::PollSleeping { .. } => true,
        Phase::Enrolling { tids, next, .. } => cfg.cgroup@.len() > 0 && next <= tids@.len()
            && tids_ok(cfg, tids@),
        Phase::AwaitWeight { tids, .. } => cfg.cgroup@.len() > 0 && tids_ok(cfg, tids@),
        Phase::AwaitAffinity { tids, .. } => cfg.cgroup@.len() > 0 && tids_ok(cfg, tids@),
        Phase::AwaitCookies { tids, .. } => cfg.cookie_count > 0 && tids_ok(cfg, tids@),
        Phase::ReadingCookies { tids, next, .. } => cfg.cookie_count > 0 && 1 <= next
            <= tids@.len() && tids_ok(cfg, tids@),
        Phase::AwaitWait { .. } => cfg.timeout > 0,
        Phase::AwaitKill { .. } => cfg.timeout > 0,
        Phase::AwaitOutput { .. } => true,
        Phase::Done => true,
    }
}

/// The phases from which no forced-termination signal has been sent yet.
pub open spec fn phase_before_kill(phase: Phase) -> bool {
    !(phase is AwaitKill) && !(phase is AwaitOutput) && !(phase is Done)
}

/// What the emitted history must satisfy at every reachable state.
pub open spec fn history_wf(cfg: RunCommandCfg, phase: Phase, h: Seq<Action>) -> bool {
    &&& count_kills(h) <= 1
    &&& phase_before_kill(phase) ==> count_kills(h) == 0
    &&& phase is AwaitKill ==> count_kills(h) == 1
    &&& cfg.cookie_count == 0 ==> count_cookie_actions(h) == 0
    &&& cfg.cgroup@.len() == 0 ==> count_cgroup_actions(h) == 0
    &&& cfg.timeout == 0 ==> count_kills(h) == 0 && count_bounded_waits(h) == 0
}

/// The orchestrator of one run.
pub struct Run {
    pub cfg: RunCommandCfg,
    pub phase: Phase,
    /// Every action handed out so far, oldest first.
    pub history: Ghost<Seq<Action>>,
}

/// The completion wait: bounded by the configured timeout when it is
/// non-zero, unbounded otherwise.
pub open spec fn wait_decision(cfg: RunCommandCfg, pid: u32, phase: Phase, a: Action) -> bool {
    if cfg.timeout > 0 {
        &&& a matches Action::WaitChildTimeout { ms } && ms == cfg.timeout
        &&& phase matches Phase::AwaitWait { pid: p } && p == pid
    } else {
        &&& a is WaitCollect
        &&& phase matches Phase::AwaitOutput { pid: p } && p == pid
    }
}

/// Cookie assignment: skipped entirely when the group count is zero,
/// otherwise the discovered ids are partitioned round-robin.
pub open spec fn cookie_decision(
    cfg: RunCommandCfg,
    pid: u32,
    kept: Seq<i32>,
    phase: Phase,
    a: Action,
) -> bool {
    if cfg.cookie_count > 0 {
        &&& a matches Action::CreateCookieGroups { groups } && is_round_robin(
            kept,
            cfg.cookie_count as int,
            group_views(groups@),
        )
        &&& phase matches Phase::AwaitCookies { pid: p, tids } && p == pid && tids@ == kept
    } else {
        wait_decision(cfg, pid, phase, a)
    }
}

/// What follows thread discovery: cgroup enrollment when a cgroup exists
/// (the main process id first), else cookie assignment, else the wait.
pub open spec fn discovery_decision(
    cfg: RunCommandCfg,
    pid: u32,
    kept: Seq<i32>,
    phase: Phase,
    a: Action,
) -> bool {
    if cfg.cgroup@.len() > 0 {
        &&& a matches Action::AddTaskToCgroup { tid } && tid == pid as u64
        &&& phase matches Phase::Enrolling { pid: p, tids, next } && p == pid && tids@ == kept
            && next == 0
    } else {
        cookie_decision(cfg, pid, kept, phase, a)
    }
}

/// The spawn step: the command line is tokenized on spaces and handed out.
pub open spec fn spawn_decision(cfg: RunCommandCfg, phase: Phase, a: Action) -> bool {
    &&& a matches Action::Spawn { tokens } && is_tokenization(tokens@, cfg.task@)
    &&& phase is AwaitSpawn
}

fn wait_step(cfg: &RunCommandCfg, pid: u32) -> (r: (Phase, Action))
    ensures
        wait_decision(*cfg, pid, r.0, r.1),
        phase_wf(*cfg, r.0),
        !(r.1 is Kill),
        !is_cookie_action(r.1),
        !is_cgroup_action(r.1),
        cfg.timeout == 0 ==> !(r.1 is WaitChildTimeout),
{
    if cfg.timeout > 0 {
        (Phase::AwaitWait { pid }, Action::WaitChildTimeout { ms: cfg.timeout })
    } else {
        (Phase::AwaitOutput { pid }, Action::WaitCollect)
    }
}

fn cookie_step(cfg: &RunCommandCfg, pid: u32, tids: Vec<i32>) -> (r: (Phase, Action))
    requires
        tids_ok(*cfg, tids@),
    ensures
        cookie_decision(*cfg, pid, tids@, r.0, r.1),
        phase_wf(*cfg, r.0),
        !(r.1 is Kill),
        cfg.cookie_count == 0 ==> !is_cookie_action(r.1),
        !is_cgroup_action(r.1),
        cfg.timeout == 0 ==> !(r.1 is WaitChildTimeout),
{
    if cfg.cookie_count > 0 {
        let groups = partition_round_robin(&tids, cfg.cookie_count);
        (Phase::AwaitCookies { pid, tids }, Action::CreateCookieGroups { groups })
    } else {
        wait_step(cfg, pid)
    }
}

fn discovery_step(cfg: &RunCommandCfg, pid: u32, tids: Vec<i32>) -> (r: (Phase, Action))
    requires
        tids_ok(*cfg, tids@),
    ensures
        discovery_decision(*cfg, pid, tids@, r.0, r.1),
        phase_wf(*cfg, r.0),
        !(r.1 is Kill),
        cfg.cookie_count == 0 ==> !is_cookie_action(r.1),
        cfg.cgroup@.len() == 0 ==> !is_cgroup_action(r.1),
        cfg.timeout == 0 ==> !(r.1 is WaitChildTimeout),
{
    if cfg.cgroup.as_str().unicode_len() > 0 {
        (
            Phase::Enrolling { pid, tids, next: 0 },
            Action::AddTaskToCgroup { tid: pid as u64 },
        )
    } else {
        cookie_step(cfg, pid, tids)
    }
}

fn spawn_step(cfg: &RunCommandCfg) -> (r: (Phase, Action))
    ensures
        spawn_decision(*cfg, r.0, r.1),
        phase_wf(*cfg, r.0),
        !(r.1 is Kill),
        !is_cookie_action(r.1),
        !is_cgroup_action(r.1),
        !(r.1 is WaitChildTimeout),
{
    let tokens = tokenize(cfg.task.as_str());
    (Phase::AwaitSpawn, Action::Spawn { tokens })
}

impl Run {
    /// The state and the emitted history never contradict the configuration;
    /// in particular, a configuration without cookie groups has caused no
    /// cookie call, one without a cgroup name no cgroup call, and one without
    /// a timeout no bounded wait and no termination signal; and at most one
    /// termination signal is ever sent.
    pub open spec fn wf(self) -> bool {
        &&& phase_wf(self.cfg, self.phase)
        &&& history_wf(self.cfg, self.phase, self.history@)
    }

    /// Which event the outstanding action may produce.
    pub open spec fn expects(self, event: Event) -> bool {
        match self.phase {
            Phase::Init => event is Start,
            Phase::AwaitCgroup => event is CgroupCreated,
            Phase::AwaitSpawn => event is Spawned,
            Phase::Polling { .. } => event matches Event::ThreadsListed { tids, .. }
                && tids_nonneg(tids@),
            Phase::PollSleeping { .. } => event is Slept,
            Phase::Enrolling { .. } => event is TaskAdded,
            Phase::AwaitWeight { .. } => event is WeightSet,
            Phase::AwaitAffinity { .. } => event is AffinitySet,
            Phase::AwaitCookies { .. } => event is CookiesCreated,
            Phase::ReadingCookies { .. } => event is CookieSeen,
            Phase::AwaitWait { .. } => event is ChildExited || event is ChildRunning,
            Phase::AwaitKill { .. } => event is Killed,
            Phase::AwaitOutput { .. } => event is OutputCollected,
            Phase::Done => false,
        }
    }

    /// Begin a run with the given configuration.
    pub fn new(cfg: RunCommandCfg) -> (r: Run)
        ensures
            r.wf(),
            r.phase is Init,
            r.cfg == cfg,
            r.history@ == Seq::<Action>::empty(),
    {
        Run { cfg, phase: Phase::Init, history: Ghost(Seq::empty()) }
    }

    /// Whether the run has finished.
    pub fn is_done(&self) -> (b: bool)
        ensures
            b == (self.phase is Done),
    {
        match self.phase {
            Phase::Done => true,
            _ => false,
        }
    }

    /// Advance the run by one step: consume the outcome of the previous
    /// action and decide the next one.
    pub fn step(self, event: Event) -> (res: (Run, Action))
        requires
            self.wf(),
            self.expects(event),
        ensures
            res.0.wf(),
            res.0.cfg == self.cfg,
            res.0.history@ == self.history@.push(res.1),
            // A configuration without cookie groups never causes a cookie call.
            self.cfg.cookie_count == 0 ==> !is_cookie_action(res.1),
            // A configuration without a cgroup name never causes a cgroup call.
            self.cfg.cgroup@.len() == 0 ==> !is_cgroup_action(res.1),
            // A run without a timeout never waits boundedly and never kills.
            self.cfg.timeout == 0 ==> !(res.1 is Kill) && !(res.1 is WaitChildTimeout),
            // The termination signal is sent exactly on the timeout expiry.
            res.1 is Kill <==> (self.phase is AwaitWait && event is ChildRunning),
            // Cgroup creation comes first, before the spawn.
            self.phase is Init ==> (if self.cfg.cgroup@.len() > 0 {
                ({
                    &&& res.1 matches Action::CreateCgroup { name } && name@ == self.cfg.cgroup@
                    &&& res.0.phase is AwaitCgroup
                })
            } else {
                spawn_decision(self.cfg, res.0.phase, res.1)
            }),
            self.phase is AwaitCgroup ==> spawn_decision(self.cfg, res.0.phase, res.1),
            // The spawned child's threads are discovered next.
            self.phase is AwaitSpawn ==> (event matches Event::Spawned { pid } ==> ({
                &&& res.1 matches Action::ListThreads { pid: p } && p == pid
                &&& res.0.phase matches Phase::Polling { pid: q } && q == pid
            })),
            // Discovery: stop at the expected count, truncating anything
            // beyond it; stop with whatever was seen once the budget is
            // spent; otherwise sleep and poll again.
            self.phase matches Phase::Polling { pid } ==> (event matches Event::ThreadsListed {
                tids,
                elapsed_ms,
            } ==> (if tids@.len() >= self.cfg.threads {
                discovery_decision(
                    self.cfg,
                    pid,
                    tids@.take(self.cfg.threads as int),
                    res.0.phase,
                    res.1,
                )
            } else if elapsed_ms >= self.cfg.thread_wait {
                discovery_decision(self.cfg, pid, tids@, res.0.phase, res.1)
            } else {
                ({
                    &&& res.1 matches Action::SleepPoll { ms } && ms == POLL_INTERVAL_MS
                    &&& res.0.phase matches Phase::PollSleeping { pid: p } && p == pid
                })
            })),
            self.phase matches Phase::PollSleeping { pid } ==> ({
                &&& res.1 matches Action::ListThreads { pid: p } && p == pid
                &&& res.0.phase matches Phase::Polling { pid: q } && q == pid
            }),
            // Enrollment: the main process id was added on entry; every
            // discovered thread id follows, in discovery order; the weight is
            // set only after the last of them.
            self.phase matches Phase::Enrolling { pid, tids, next } ==> (if next < tids@.len() {
                ({
                    &&& res.1 matches Action::AddTaskToCgroup { tid } && tid == tids@[next as int] as u64
                    &&& res.0.phase matches Phase::Enrolling { pid: p, tids: t2, next: n2 } && p
                        == pid && t2@ == tids@ && n2 == next + 1
                })
            } else {
                ({
                    &&& res.1 matches Action::SetWeight { weight } && weight == self.cfg.weight
                    &&& res.0.phase matches Phase::AwaitWeight { pid: p, tids: t2 } && p == pid
                        && t2@ == tids@
                })
            }),
            // Affinity is set only when a cpuset is configured, after the weight.
            self.phase matches Phase::AwaitWeight { pid, tids } ==> (if self.cfg.cpuset@.len()
                > 0 {
                ({
                    &&& res.1 matches Action::SetCpuAffinity { cpuset } && cpuset@
                        == self.cfg.cpuset@
                    &&& res.0.phase matches Phase::AwaitAffinity { pid: p, tids: t2 } && p == pid
                        && t2@ == tids@
                })
            } else {
                cookie_decision(self.cfg, pid, tids@, res.0.phase, res.1)
            }),
            self.phase matches Phase::AwaitAffinity { pid, tids } ==> cookie_decision(
                self.cfg,
                pid,
                tids@,
                res.0.phase,
                res.1,
            ),
            // After the groups are created, every discovered id's cookie is
            // read back, in discovery order.
            self.phase matches Phase::AwaitCookies { pid, tids } ==> (if tids@.len() > 0 {
                ({
                    &&& res.1 matches Action::GetCookie { tid } && tid == tids@[0]
                    &&& res.0.phase matches Phase::ReadingCookies { pid: p, tids: t2, next } && p
                        == pid && t2@ == tids@ && next == 1
                })
            } else {
                wait_decision(self.cfg, pid, res.0.phase, res.1)
            }),
            self.phase matches Phase::ReadingCookies { pid, tids, next } ==> (if next
                < tids@.len() {
                ({
                    &&& res.1 matches Action::GetCookie { tid } && tid == tids@[next as int]
                    &&& res.0.phase matches Phase::ReadingCookies { pid: p, tids: t2, next: n2 }
                        && p == pid && t2@ == tids@ && n2 == next + 1
                })
            } else {
                wait_decision(self.cfg, pid, res.0.phase, res.1)
            }),
            // A child that exited in time is reaped; one that is still
            // running is killed, then reaped.
            self.phase matches Phase::AwaitWait { pid } ==> ({
                &&& event is ChildExited ==> ({
                    &&& res.1 is WaitCollect
                    &&& res.0.phase matches Phase::AwaitOutput { pid: p } && p == pid
                })
                &&& event is ChildRunning ==> (res.0.phase matches Phase::AwaitKill { pid: p } && p
                    == pid)
            }),
            self.phase matches Phase::AwaitKill { pid } ==> ({
                &&& res.1 is WaitCollect
                &&& res.0.phase matches Phase::AwaitOutput { pid: p } && p == pid
            }),
            // The outcome carries the child's id and its decoded output.
            self.phase matches Phase::AwaitOutput { pid } ==> (event
                matches Event::OutputCollected { stdout, stderr } ==> ({
                &&& res.1 matches Action::Finish { outcome } && outcome.pid == pid
                    && outcome.stdout@ == stdout@ && outcome.stderr@ == stderr@
                &&& res.0.phase is Done
            })),
    {
        let Run { cfg, phase, history } = self;
        let (new_phase, action): (Phase, Action) = match (phase, event) {
            (Phase::Init, Event::Start) => {
                if cfg.cgroup.as_str().unicode_len() > 0 {
                    (Phase::AwaitCgroup, Action::CreateCgroup { name: cfg.cgroup.clone() })
                } else {
                    spawn_step(&cfg)
                }
            },
            (Phase::AwaitCgroup, Event::CgroupCreated) => spawn_step(&cfg),
            (Phase::AwaitSpawn, Event::Spawned { pid }) => (
                Phase::Polling { pid },
                Action::ListThreads { pid },
            ),
            (Phase::Polling { pid }, Event::ThreadsListed { tids, elapsed_ms }) => {
                let mut tids = tids;
                if tids.len() >= cfg.threads {
                    let ghost seen: Seq<i32> = tids@;
                    tids.truncate(cfg.threads);
                    proof {
                        assert(tids@ == seen.take(cfg.threads as int));
                        assert forall|i: int| 0 <= i < tids@.len() implies tids@[i] >= 0 by {
                            assert(tids@[i] == seen[i]);
                        }
                    }
                    discovery_step(&cfg, pid, tids)
                } else if elapsed_ms >= cfg.thread_wait {
                    discovery_step(&cfg, pid, tids)
                } else {
                    (Phase::PollSleeping { pid }, Action::SleepPoll { ms: POLL_INTERVAL_MS })
                }
            },
            (Phase::PollSleeping { pid }, Event::Slept) => (
                Phase::Polling { pid },
                Action::ListThreads { pid },
            ),
            (Phase::Enrolling { pid, tids, next }, Event::TaskAdded) => {
                if next < tids.len() {
                    let tid = tids[next];
                    (
                        Phase::Enrolling { pid, tids, next: next + 1 },
                        Action::AddTaskToCgroup { tid: tid as u64 },
                    )
                } else {
                    (
                        Phase::AwaitWeight { pid, tids },
                        Action::SetWeight { weight: cfg.weight },
                    )
                }
            },
            (Phase::AwaitWeight { pid, tids }, Event::WeightSet) => {
                if cfg.cpuset.as_str().unicode_len() > 0 {
                    (
                        Phase::AwaitAffinity { pid, tids },
                        Action::SetCpuAffinity { cpuset: cfg.cpuset.clone() },
                    )
                } else {
                    cookie_step(&cfg, pid, tids)
                }
            },
            (Phase::AwaitAffinity { pid, tids }, Event::AffinitySet) => cookie_step(
                &cfg,
                pid,
                tids,
            ),
            (Phase::AwaitCookies { pid, tids }, Event::CookiesCreated) => {
                if tids.len() > 0 {
                    let tid = tids[0];
                    (
                        Phase::ReadingCookies { pid, tids, next: 1 },
                        Action::GetCookie { tid },
                    )
                } else {
                    wait_step(&cfg, pid)
                }
            },
            (Phase::ReadingCookies { pid, tids, next }, Event::CookieSeen { .. }) => {
                if next < tids.len() {
                    let tid = tids[next];
                    (
                        Phase::ReadingCookies { pid, tids, next: next + 1 },
                        Action::GetCookie { tid },
                    )
                } else {
                    wait_step(&cfg, pid)
                }
            },
            (Phase::AwaitWait { pid }, Event::ChildExited) => (
                Phase::AwaitOutput { pid },
                Action::WaitCollect,
            ),
            (Phase::AwaitWait { pid }, Event::ChildRunning) => (
                Phase::AwaitKill { pid },
                Action::Kill,
            ),
            (Phase::AwaitKill { pid }, Event::Killed) => (
                Phase::AwaitOutput { pid },
                Action::WaitCollect,
            ),
            (Phase::AwaitOutput { pid }, Event::OutputCollected { stdout, stderr }) => (
                Phase::Done,
                Action::Finish { outcome: RunOutcome { pid, stdout, stderr } },
            ),
            _ => {
                proof {
                    assert(false);
                }
                (Phase::Done, Action::WaitCollect)
            },
        };
        let next_history: Ghost<Seq<Action>> = Ghost(history@.push(action));
        proof {
            lemma_counts_push(history@, action);
        }
        (Run { cfg, phase: new_phase, history: next_history }, action)
    }
}

/// Law: a run whose configuration asks for no cookie groups has made no
/// cookie-assignment call.
pub proof fn lemma_no_cookie_calls(r: Run)
    requires
        r.wf(),
        r.cfg.cookie_count == 0,
    ensures
        count_cookie_actions(r.history@) == 0,
{
}

/// Law: a run whose configuration names no cgroup has made no
/// cgroup-controller call.
pub proof fn lemma_no_cgroup_calls(r: Run)
    requires
        r.wf(),
        r.cfg.cgroup@.len() == 0,
    ensures
        count_cgroup_actions(r.history@) == 0,
{
}

/// Law: a run without a timeout waits unboundedly: it never issues a bounded
/// wait and never issues a termination signal.
pub proof fn lemma_unbounded_run_never_kills(r: Run)
    requires
        r.wf(),
        r.cfg.timeout == 0,
    ensures
        count_kills(r.history@) == 0,
        count_bounded_waits(r.history@) == 0,
{
}

/// Law: no run ever issues the termination signal twice, and before the
/// bounded wait has expired it has issued none.
pub proof fn lemma_kill_at_most_once(r: Run)
    requires
        r.wf(),
    ensures
        count_kills(r.history@) <= 1,
        phase_before_kill(r.phase) ==> count_kills(r.history@) == 0,
{
}

} // verus!
