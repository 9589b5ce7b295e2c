//! The command protocol: what one line of text on the control channel asks
//! the supervisor to do.

use crate::text::{chars_of, decimal, parse_decimal, split_whitespace, tokens, words};
use vstd::prelude::*;

verus! {

/// The respawn delay, in seconds, of a supervisor that was never told
/// another, and of a `DELAY` command without an argument.
pub const DEFAULT_DELAY: u64 = 15;

/// One operation of the control channel.
#[derive(Clone, Debug, PartialEq, Eq)]
pub enum Command {
    /// Suspend respawning and terminate the child.
    Stop,
    /// Resume respawning.
    Start,
    /// Terminate the child, so that the respawn loop starts it anew.
    Restart,
    /// Set the respawn delay, in seconds.
    SetDelay(u64),
    /// A message that asks for no known operation; it holds the message.
    Unrecognized(String),
    /// A message without a single token.
    Empty,
}

/// A command as contracts see it: the text of an unrecognized message is a
/// sequence of characters.
pub enum CommandView {
    Stop,
    Start,
    Restart,
    SetDelay(u64),
    Unrecognized(Seq<char>),
    Empty,
}

impl View for Command {
    type V = CommandView;

    open spec fn view(&self) -> CommandView {
        match self {
            Command::Stop => CommandView::Stop,
            Command::Start => CommandView::Start,
            Command::Restart => CommandView::Restart,
            Command::SetDelay(seconds) => CommandView::SetDelay(*seconds),
            Command::Unrecognized(text) => CommandView::Unrecognized(text@),
            Command::Empty => CommandView::Empty,
        }
    }
}

/// The delay that the tokens of a `DELAY` message ask for: the default where
/// the keyword stands alone, else the number that the second token writes.
/// `None` where the second token writes no number.
pub open spec fn delay_argument(parts: Seq<Seq<char>>) -> Option<u64> {
    if parts.len() < 2 {
        Some(DEFAULT_DELAY)
    } else {
        decimal(parts[1])
    }
}

/// The command that a message asks for. The first token decides, compared
/// letter for letter with the four keywords; later tokens count only as the
/// argument of `DELAY`. A `DELAY` whose argument writes no number is not
/// recognized.
pub open spec fn parse_command(text: Seq<char>) -> CommandView {
    let parts = tokens(text);
    if parts.len() == 0 {
        CommandView::Empty
    } else if parts[0] == "STOP"@ {
        CommandView::Stop
    } else if parts[0] == "START"@ {
        CommandView::Start
    } else if parts[0] == "RESTART"@ {
        CommandView::Restart
    } else if parts[0] == "DELAY"@ {
        match delay_argument(parts) {
            Some(seconds) => CommandView::SetDelay(seconds),
            None => CommandView::Unrecognized(text),
        }
    } else {
        CommandView::Unrecognized(text)
    }
}

/// Whether two runs of characters are the same.
pub fn same_chars(a: &[char], b: &[char]) -> (same: bool)
    ensures
        same == (a@ == b@),
{
    if a.len() != b.len() {
        return false;
    }
    let mut i: usize = 0;
    while i < a.len()
        invariant
            a@.len() == b@.len(),
            i <= a@.len(),
            a@.take(i as int) == b@.take(i as int),
        decreases a@.len() - i,
    {
        if a[i] != b[i] {
            return false;
        }
        assert(a@.take(i + 1) == a@.take(i as int).push(a@[i as int]));
        assert(b@.take(i + 1) == b@.take(i as int).push(b@[i as int]));
        i += 1;
    }
    assert(a@.take(i as int) == a@);
    assert(b@.take(i as int) == b@);
    true
}

/// Whether a token is the given keyword.
fn is_keyword(token: &Vec<char>, keyword: &str) -> (same: bool)
    ensures
        same == (token@ == keyword@),
{
    let letters = chars_of(keyword);
    same_chars(token.as_slice(), letters.as_slice())
}

/// Reads the argument of a `DELAY` message from its tokens.
pub fn read_delay(parts: &Vec<Vec<char>>) -> (seconds: Option<u64>)
    ensures
        seconds == delay_argument(words(parts@)),
{
    if parts.len() < 2 {
        Some(DEFAULT_DELAY)
    } else {
        parse_decimal(parts[1].as_slice())
    }
}

impl Command {
    /// Reads the command that a message asks for.
    pub fn parse(text: &str) -> (command: Command)
        ensures
            command@ == parse_command(text@),
    {
        let letters = chars_of(text);
        let parts = split_whitespace(letters.as_slice());
        if parts.len() == 0 {
            return Command::Empty;
        }
        assert(words(parts@)[0] == parts@[0]@);
        let first = &parts[0];
        if is_keyword(first, "STOP") {
            Command::Stop
        } else if is_keyword(first, "START") {
            Command::Start
        } else if is_keyword(first, "RESTART") {
            Command::Restart
        } else if is_keyword(first, "DELAY") {
            match read_delay(&parts) {
                Some(seconds) => Command::SetDelay(seconds),
                None => Command::Unrecognized(text.to_owned()),
            }
        } else {
            Command::Unrecognized(text.to_owned())
        }
    }
}

} // verus!
