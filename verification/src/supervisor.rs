//! The supervision of the listeners: which tasks are started, what a listener does next,
//! and how the process ends once the first task is done.

use vstd::prelude::*;
use crate::config::Config;

verus! {

/// The number of seconds that the tasks in flight are given to finish once the process
/// is to end.
pub const RUNTIME_EXIT_TIMEOUT_S: u64 = 10;

/// A task that the supervisor starts.
#[derive(Clone, Copy, Debug, PartialEq, Eq, Structural)]
pub enum Task {
    /// Binds this port on the address of the configuration and accepts connections on it.
    Listener(u16),
    /// Waits for the interrupt signal.
    Interrupt,
    /// Waits for the terminate signal.
    Terminate,
}

/// The tasks for the ports `ports`: one listener for each port, in their order, then the
/// two that wait for a signal.
pub open spec fn planned(ports: Seq<u16>) -> Seq<Task> {
    Seq::new(ports.len(), |i: int| Task::Listener(ports[i])).push(Task::Interrupt).push(
        Task::Terminate,
    )
}

/// Lists the tasks that are started for `config`.
pub fn tasks(config: &Config) -> (r: Vec<Task>)
    ensures
        r@ == planned(config.ports@),
{
    let mut plan: Vec<Task> = Vec::new();
    let mut i: usize = 0;
    while i < config.ports.len()
        invariant
            i <= config.ports@.len(),
            plan@ == Seq::new(i as nat, |k: int| Task::Listener(config.ports@[k])),
        decreases config.ports@.len() - i,
    {
        plan.push(Task::Listener(config.ports[i]));
        assert(plan@ =~= Seq::new((i + 1) as nat, |k: int| Task::Listener(config.ports@[k])));
        i += 1;
    }
    plan.push(Task::Interrupt);
    plan.push(Task::Terminate);
    plan
}

/// How a task ended.
#[derive(Clone, Copy, Debug, PartialEq, Eq, Structural)]
pub enum Finished {
    /// A listener did not bind its port.
    BindFailed(u16),
    /// A task that waits for a signal was not set up.
    Unregistered,
    /// The interrupt signal came.
    Interrupted,
    /// The terminate signal came.
    Terminated,
    /// A task was lost: it did not end by itself.
    Lost,
}

/// The exit code of the process when `first` is how the first task ended: 0 for a signal,
/// which asks for a clean end, and 1 for everything else.
pub open spec fn exit_code_of(first: Finished) -> i32 {
    match first {
        Finished::Interrupted | Finished::Terminated => 0,
        _ => 1,
    }
}

/// The exit code of the process, decided by the task that ended first.
pub fn exit_code(first: Finished) -> (r: i32)
    ensures
        r == exit_code_of(first),
{
    match first {
        Finished::Interrupted => 0,
        Finished::Terminated => 0,
        Finished::BindFailed(_) => 1,
        Finished::Unregistered => 1,
        Finished::Lost => 1,
    }
}

/// The time in milliseconds that the tasks in flight are given to finish.
pub fn grace_period_ms() -> (r: u64)
    ensures
        r == RUNTIME_EXIT_TIMEOUT_S * 1000,
{
    RUNTIME_EXIT_TIMEOUT_S * 1000
}

/// What happened to a listener.
#[derive(Clone, Copy, Debug, PartialEq, Eq, Structural)]
pub enum Heard {
    /// It bound its port.
    Bound,
    /// It did not bind its port.
    BindFailed,
    /// It accepted a connection.
    Accepted,
    /// It failed to accept a connection.
    AcceptFailed,
}

/// What a listener does next.
#[derive(Clone, Copy, Debug, PartialEq, Eq, Structural)]
pub enum Listen {
    /// It waits for the next connection.
    Accept,
    /// It hands the connection to a handler of its own, and waits for the next.
    Dispatch,
    /// It ends, and so does the process, with this exit code.
    Exit(i32),
}

/// What a listener on `port` does after `heard`: only a port that is not bound ends it; a
/// connection that is not accepted is passed over.
pub open spec fn listened(port: u16, heard: Heard) -> Listen {
    match heard {
        Heard::Bound => Listen::Accept,
        Heard::BindFailed => Listen::Exit(exit_code_of(Finished::BindFailed(port))),
        Heard::Accepted => Listen::Dispatch,
        Heard::AcceptFailed => Listen::Accept,
    }
}

/// Says what a listener on `port` does after `heard`.
pub fn listen(port: u16, heard: Heard) -> (r: Listen)
    ensures
        r == listened(port, heard),
{
    match heard {
        Heard::Bound => Listen::Accept,
        Heard::BindFailed => Listen::Exit(exit_code(Finished::BindFailed(port))),
        Heard::Accepted => Listen::Dispatch,
        Heard::AcceptFailed => Listen::Accept,
    }
}

} // verus!
