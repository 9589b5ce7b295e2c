//! The respawn loop as a state machine. The loop itself blocks on the
//! outside world: it starts the program, waits for it to exit, sleeps and
//! parks. What it does next is decided here, from the shared state, the phase
//! it is in and what the outside world answered.

use crate::state::{Reply, Runner, State};
use vstd::prelude::*;

verus! {

/// Where the respawn loop stands. Each phase is one thing to block on.
#[derive(Clone, Copy, Debug, PartialEq, Eq)]
pub enum Phase {
    /// Start the program.
    Spawning,
    /// Wait for the child to exit.
    Running,
    /// Wait for `delay` seconds, or for the program's file to be replaced.
    /// The delay is the one that the state held when the wait began.
    WaitingForNextCycle { delay: u64 },
    /// Wait on the pause condition until respawning is wanted again.
    PausedBlocking,
}

/// What a watch on the program's file reports.
#[derive(Clone, Copy, Debug, PartialEq, Eq)]
pub enum Notice {
    NoticeWrite,
    NoticeRemove,
    Create,
    Write,
    Chmod,
    Remove,
    Rename,
    Rescan,
    Error,
}

/// What the outside world answered to the loop.
#[derive(Clone, Copy, Debug, PartialEq, Eq)]
pub enum Event {
    /// The program was started as the process with this identifier.
    Spawned(u32),
    /// The program could not be started.
    SpawnFailed,
    /// The child has exited.
    ChildExited,
    /// The system would not report the child's exit.
    WaitFailed,
    /// The respawn delay has passed.
    TimedOut,
    /// The watch on the program's file reported something.
    Watch(Notice),
    /// The watch on the program's file is gone.
    WatchLost,
    /// The pause condition was signaled.
    Signaled,
}

/// The phase that follows the wait, and that a parked loop takes up when it
/// is woken: spawning where respawning is wanted, else parked until it is.
pub open spec fn ready_or_parked(state: State) -> Phase {
    if state.running {
        Phase::Spawning
    } else {
        Phase::PausedBlocking
    }
}

/// Whether an answer to the wait between two cycles ends it: the delay has
/// passed, or the program's file was written anew.
pub open spec fn ends_wait(event: Event) -> bool {
    event == Event::TimedOut || event == Event::Watch(Notice::Write)
}

/// One step of the loop: the state and the phase after `event` arrived in
/// `phase`.
///
/// A spawn that succeeded is recorded and the child awaited; one that failed
/// goes on to the wait, as does a child that exited or could not be awaited.
/// The wait takes its delay from the state at that moment and keeps it until
/// it ends; the loop then spawns if respawning is wanted and parks if not. A
/// parked loop looks at the flag again whenever the pause condition is
/// signaled. An event that the phase does not wait for changes nothing.
pub open spec fn step(state: State, phase: Phase, event: Event) -> (State, Phase) {
    match (phase, event) {
        (Phase::Spawning, Event::Spawned(pid)) => (state.spawned(pid), Phase::Running),
        (Phase::Spawning, Event::SpawnFailed) => (
            state,
            Phase::WaitingForNextCycle { delay: state.delay },
        ),
        (Phase::Running, Event::ChildExited) => (
            state,
            Phase::WaitingForNextCycle { delay: state.delay },
        ),
        (Phase::Running, Event::WaitFailed) => (
            state,
            Phase::WaitingForNextCycle { delay: state.delay },
        ),
        (Phase::WaitingForNextCycle { delay }, event) => if ends_wait(event) {
            (state, ready_or_parked(state))
        } else {
            (state, phase)
        },
        (Phase::PausedBlocking, Event::Signaled) => (state, ready_or_parked(state)),
        _ => (state, phase),
    }
}

impl Runner {
    /// Enters the loop: respawning is wanted, whatever the flag said, and
    /// the first phase is to spawn. As after every write of the flag, the
    /// caller owes one wake-up on the pause condition.
    pub fn begin(&mut self) -> (start: (Reply, Phase))
        ensures
            final(self)@ == old(self)@.toggled(true),
            final(self).program() == old(self).program(),
            start == (Reply::woken(), Phase::Spawning),
    {
        let reply = self.toggle(true);
        (reply, Phase::Spawning)
    }

    /// The phase that follows the wait, as the flag stands now.
    fn resume(&self) -> (phase: Phase)
        ensures
            phase == ready_or_parked(self@),
    {
        if self.snapshot().running {
            Phase::Spawning
        } else {
            Phase::PausedBlocking
        }
    }

    /// The wait that follows a cycle, with the delay as it stands now.
    fn next_wait(&self) -> (phase: Phase)
        ensures
            phase == (Phase::WaitingForNextCycle { delay: self@.delay }),
    {
        Phase::WaitingForNextCycle { delay: self.snapshot().delay }
    }

    /// Takes one step of the loop and returns the phase to block on next.
    pub fn advance(&mut self, phase: Phase, event: Event) -> (next: Phase)
        ensures
            (final(self)@, next) == step(old(self)@, phase, event),
            final(self).program() == old(self).program(),
    {
        match phase {
            Phase::Spawning => match event {
                Event::Spawned(pid) => {
                    self.record_spawn(pid);
                    Phase::Running
                },
                Event::SpawnFailed => self.next_wait(),
                _ => phase,
            },
            Phase::Running => match event {
                Event::ChildExited => self.next_wait(),
                Event::WaitFailed => self.next_wait(),
                _ => phase,
            },
            Phase::WaitingForNextCycle { delay: _ } => match event {
                Event::TimedOut => self.resume(),
                Event::Watch(Notice::Write) => self.resume(),
                _ => phase,
            },
            Phase::PausedBlocking => match event {
                Event::Signaled => self.resume(),
                _ => phase,
            },
        }
    }
}

} // verus!
