//! Core logic of a process-launch harness for Linux core scheduling and
//! cgroup resource grouping.
//!
//! The library holds the decision logic of one supervised run: tokenizing the
//! command line, partitioning discovered threads into cookie groups, and the
//! orchestration state machine that decides, step by step, which OS-level
//! operation comes next (cgroup placement, cookie assignment, timeout-bounded
//! waiting). The OS operations themselves are performed by the caller, which
//! feeds each operation's outcome back as an event.

pub mod partition;
pub mod run;
pub mod tokenize;
