//! The supervisor's state and what each command of the control channel does
//! to it.

use crate::command::{delay_argument, parse_command, Command, CommandView, DEFAULT_DELAY};
use crate::text::{chars_of, parse_decimal};
use vstd::prelude::*;

verus! {

/// Why a command had no effect, or less than it asks for.
#[derive(Clone, Copy, Debug, PartialEq, Eq)]
pub enum Fault {
    /// The command acts on the child, and no child was ever started.
    NoActiveProcess,
    /// The message asks for no known operation.
    UnknownCommand,
    /// The message holds no token.
    InvalidData,
    /// The bytes of the message are no text.
    Undecodable,
}

/// What the caller owes after a command was applied to the state.
#[derive(Clone, Copy, Debug, PartialEq, Eq)]
pub struct Reply {
    /// The desired-running flag was written: wake one waiter on the pause
    /// condition.
    pub wake: bool,
    /// The process to hand to the terminator, if any.
    pub terminate: Option<u32>,
    /// What to report, if the command could not do all it asks for.
    pub fault: Option<Fault>,
}

impl Reply {
    /// The reply to a write of the desired-running flag: one wake-up on the
    /// pause condition, and nothing else.
    pub open spec fn woken() -> Reply {
        Reply { wake: true, terminate: None, fault: None }
    }

    /// The reply that asks nothing of the caller.
    pub open spec fn quiet() -> Reply {
        Reply { wake: false, terminate: None, fault: None }
    }

    /// The reply that only reports a fault.
    pub open spec fn failed(fault: Fault) -> Reply {
        Reply { wake: false, terminate: None, fault: Some(fault) }
    }
}

/// The shared record of the supervisor.
#[derive(Clone, Copy, Debug, PartialEq, Eq)]
pub struct State {
    /// Whether the operator wants the child respawned.
    pub running: bool,
    /// The process that the latest successful spawn started. It stays after
    /// that process has exited, until the next spawn succeeds.
    pub pid: Option<u32>,
    /// The respawn delay, in seconds.
    pub delay: u64,
}

impl State {
    /// The state of a supervisor that has done nothing yet.
    pub open spec fn initial() -> State {
        State { running: true, pid: None, delay: DEFAULT_DELAY }
    }

    /// This state with the desired-running flag set to `status`.
    pub open spec fn toggled(self, status: bool) -> State {
        State { running: status, ..self }
    }

    /// This state with a respawn delay of `seconds`.
    pub open spec fn delayed(self, seconds: u64) -> State {
        State { delay: seconds, ..self }
    }

    /// This state after a spawn that started process `pid`.
    pub open spec fn spawned(self, pid: u32) -> State {
        State { pid: Some(pid), ..self }
    }

    /// The fault of a command against the child, if there is no child.
    pub open spec fn target_fault(self) -> Option<Fault> {
        match self.pid {
            Some(_) => None,
            None => Some(Fault::NoActiveProcess),
        }
    }

    /// This state after `command`. Only three commands change it: `Stop` and
    /// `Start` write the flag, `SetDelay` the delay.
    pub open spec fn after(self, command: CommandView) -> State {
        match command {
            CommandView::Stop => self.toggled(false),
            CommandView::Start => self.toggled(true),
            CommandView::SetDelay(seconds) => self.delayed(seconds),
            _ => self,
        }
    }

    /// What the caller owes after `command` was applied to this state.
    pub open spec fn reply_to(self, command: CommandView) -> Reply {
        match command {
            CommandView::Stop => Reply {
                wake: true,
                terminate: self.pid,
                fault: self.target_fault(),
            },
            CommandView::Start => Reply::woken(),
            CommandView::Restart => Reply {
                wake: false,
                terminate: self.pid,
                fault: self.target_fault(),
            },
            CommandView::SetDelay(_) => Reply::quiet(),
            CommandView::Unrecognized(_) => Reply::failed(Fault::UnknownCommand),
            CommandView::Empty => Reply::failed(Fault::InvalidData),
        }
    }
}

/// The character sequences of the tokens of a message.
pub open spec fn token_views(parts: Seq<&str>) -> Seq<Seq<char>> {
    parts.map_values(|part: &str| part@)
}

/// A supervisor of one program: the shared state and the program's path.
pub struct Runner {
    state: State,
    prog: String,
}

impl View for Runner {
    type V = State;

    closed spec fn view(&self) -> State {
        self.state
    }
}

impl Runner {
    /// The path of the supervised program.
    pub closed spec fn program(&self) -> Seq<char> {
        self.prog@
    }

    /// A supervisor of `prog` in its initial state: respawning wanted, no
    /// child yet, the default delay.
    pub fn new(prog: &str) -> (runner: Runner)
        ensures
            runner@ == State::initial(),
            runner.program() == prog@,
    {
        Runner {
            state: State { running: true, pid: None, delay: DEFAULT_DELAY },
            prog: prog.to_owned(),
        }
    }

    /// A copy of the state as it is now.
    pub fn snapshot(&self) -> (state: State)
        ensures
            state == self@,
    {
        self.state
    }

    /// The path of the supervised program.
    pub fn prog(&self) -> (prog: &str)
        ensures
            prog@ == self.program(),
    {
        self.prog.as_str()
    }

    /// Writes the desired-running flag. The caller owes one wake-up on the
    /// pause condition, whichever way the flag went and whatever it was.
    pub fn toggle(&mut self, status: bool) -> (reply: Reply)
        ensures
            final(self)@ == old(self)@.toggled(status),
            final(self).program() == old(self).program(),
            reply == Reply::woken(),
    {
        self.state.running = status;
        Reply { wake: true, terminate: None, fault: None }
    }

    /// Records the process that a successful spawn started.
    pub fn record_spawn(&mut self, pid: u32)
        ensures
            final(self)@ == old(self)@.spawned(pid),
            final(self).program() == old(self).program(),
    {
        self.state.pid = Some(pid);
    }

    /// Sets the respawn delay from the tokens of a `DELAY` message, the
    /// keyword first. Returns the new delay in seconds. Where the argument
    /// writes no number, the delay stays and the result is `None`.
    pub fn delay(&mut self, parts: &[&str]) -> (seconds: Option<u64>)
        ensures
            seconds == delay_argument(token_views(parts@)),
            final(self)@ == match seconds {
                Some(seconds) => old(self)@.delayed(seconds),
                None => old(self)@,
            },
            final(self).program() == old(self).program(),
    {
        let seconds = if parts.len() < 2 {
            Some(DEFAULT_DELAY)
        } else {
            let argument = chars_of(parts[1]);
            parse_decimal(argument.as_slice())
        };
        if let Some(seconds) = seconds {
            self.state.delay = seconds;
        }
        seconds
    }

    /// Names the child for the terminator; the respawn loop then starts the
    /// program anew. The state stays as it is. Where no child was ever
    /// started, the reply names none and reports that.
    pub fn restart(&self) -> (reply: Reply)
        ensures
            reply == self@.reply_to(CommandView::Restart),
    {
        match self.state.pid {
            Some(pid) => Reply { wake: false, terminate: Some(pid), fault: None },
            None => Reply { wake: false, terminate: None, fault: Some(Fault::NoActiveProcess) },
        }
    }

    /// Clears the desired-running flag and names the child for the
    /// terminator. Where no child was ever started, the flag is cleared all
    /// the same, and the reply names none and reports that.
    pub fn stop(&mut self) -> (reply: Reply)
        ensures
            final(self)@ == old(self)@.toggled(false),
            final(self).program() == old(self).program(),
            reply == old(self)@.reply_to(CommandView::Stop),
    {
        let target = self.restart();
        self.toggle(false);
        Reply { wake: true, terminate: target.terminate, fault: target.fault }
    }

    /// Sets the desired-running flag.
    pub fn start(&mut self) -> (reply: Reply)
        ensures
            final(self)@ == old(self)@.toggled(true),
            final(self).program() == old(self).program(),
            reply == old(self)@.reply_to(CommandView::Start),
    {
        self.toggle(true)
    }

    /// Applies a command to the state and says what the caller owes.
    pub fn dispatch(&mut self, command: &Command) -> (reply: Reply)
        ensures
            final(self)@ == old(self)@.after(command@),
            final(self).program() == old(self).program(),
            reply == old(self)@.reply_to(command@),
    {
        match command {
            Command::Stop => self.stop(),
            Command::Start => self.start(),
            Command::Restart => self.restart(),
            Command::SetDelay(seconds) => {
                self.state.delay = *seconds;
                Reply { wake: false, terminate: None, fault: None }
            },
            Command::Unrecognized(_) => Reply {
                wake: false,
                terminate: None,
                fault: Some(Fault::UnknownCommand),
            },
            Command::Empty => Reply {
                wake: false,
                terminate: None,
                fault: Some(Fault::InvalidData),
            },
        }
    }

    /// Reads one message of the control channel and applies the command it
    /// asks for.
    pub fn handle(&mut self, cmd: &str) -> (reply: Reply)
        ensures
            final(self)@ == old(self)@.after(parse_command(cmd@)),
            final(self).program() == old(self).program(),
            reply == old(self)@.reply_to(parse_command(cmd@)),
    {
        let command = Command::parse(cmd);
        self.dispatch(&command)
    }
}

} // verus!
