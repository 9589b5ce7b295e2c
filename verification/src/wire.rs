//! The wire format of the control channel: one message per connection, text
//! in UTF-8 that a single NUL byte ends.

use crate::command::parse_command;
use crate::state::{Fault, Reply, Runner, State};
use vstd::prelude::*;
use vstd::utf8::{decode_utf8, encode_utf8, valid_utf8};

verus! {

/// The byte that ends a message.
pub const TERMINATOR: u8 = 0;

/// The byte that stands between the words of a message.
pub const SEPARATOR: u8 = 0x20;

/// Whether the first `n` bytes are the payload of `bytes`: they hold no
/// terminator, and a terminator or the end of the bytes follows them.
pub open spec fn is_payload_len(bytes: Seq<u8>, n: int) -> bool {
    &&& 0 <= n <= bytes.len()
    &&& forall|i: int| 0 <= i < n ==> bytes[i] != TERMINATOR
    &&& n < bytes.len() ==> bytes[n] == TERMINATOR
}

/// The number of bytes before the first terminator; the number of all bytes
/// where there is none.
pub open spec fn payload_len(bytes: Seq<u8>) -> int {
    choose|n: int| is_payload_len(bytes, n)
}

/// The bytes before the first terminator; all bytes where there is none.
pub open spec fn payload(bytes: Seq<u8>) -> Seq<u8> {
    bytes.take(payload_len(bytes))
}

/// The text of a message: its payload read as UTF-8. `None` where the
/// payload is no UTF-8.
pub open spec fn message_text(bytes: Seq<u8>) -> Option<Seq<char>> {
    if valid_utf8(payload(bytes)) {
        Some(decode_utf8(payload(bytes)))
    } else {
        None
    }
}

/// There is one length of the payload, and `payload_len` is that one.
pub proof fn lemma_payload_len(bytes: Seq<u8>, n: int)
    requires
        is_payload_len(bytes, n),
    ensures
        payload_len(bytes) == n,
{
    let m = payload_len(bytes);
    assert(is_payload_len(bytes, m));
    if m < n {
        assert(bytes[m] != TERMINATOR);
    } else if n < m {
        assert(bytes[n] != TERMINATOR);
    }
}

/// Finds the payload of the bytes read from one connection.
pub fn find_payload(bytes: &[u8]) -> (n: usize)
    ensures
        n == payload_len(bytes@),
        is_payload_len(bytes@, n as int),
{
    let mut n: usize = 0;
    while n < bytes.len() && bytes[n] != TERMINATOR
        invariant
            n <= bytes@.len(),
            forall|i: int| 0 <= i < n ==> bytes@[i] != TERMINATOR,
        decreases bytes@.len() - n,
    {
        n += 1;
    }
    proof {
        lemma_payload_len(bytes@, n as int);
    }
    n
}

/// The bytes as text, by `std::str::from_utf8`.
///
/// Trusted, not proved: that the call succeeds on well-formed UTF-8 and on
/// nothing else, and that the text it gives is what the bytes encode.
#[verifier::external_body]
fn text_of(bytes: &[u8]) -> (text: Option<&str>)
    ensures
        text is Some <==> valid_utf8(bytes@),
        text matches Some(t) ==> t@ == decode_utf8(bytes@),
{
    match std::str::from_utf8(bytes) {
        Ok(text) => Some(text),
        Err(_) => None,
    }
}

/// Reads the text of a message from the bytes of one connection.
pub fn decode_message(bytes: &[u8]) -> (text: Option<String>)
    ensures
        match text {
            Some(text) => message_text(bytes@) == Some(text@),
            None => message_text(bytes@) is None,
        },
{
    let n = find_payload(bytes);
    let body = vstd::slice::slice_subrange(bytes, 0, n);
    assert(body@ == payload(bytes@));
    match text_of(body) {
        Some(text) => Some(text.to_owned()),
        None => None,
    }
}

/// What the caller owes after the bytes `bytes` arrived in state `state`.
pub open spec fn reply_to_bytes(state: State, bytes: Seq<u8>) -> Reply {
    match message_text(bytes) {
        Some(text) => state.reply_to(parse_command(text)),
        None => Reply::failed(Fault::Undecodable),
    }
}

/// The state after the bytes `bytes` arrived in state `state`.
pub open spec fn after_bytes(state: State, bytes: Seq<u8>) -> State {
    match message_text(bytes) {
        Some(text) => state.after(parse_command(text)),
        None => state,
    }
}

impl Runner {
    /// Serves one connection of the control channel, given the bytes read
    /// from it: reads the message and applies its command. Bytes that are
    /// no text change nothing.
    pub fn receive(&mut self, bytes: &[u8]) -> (reply: Reply)
        ensures
            final(self)@ == after_bytes(old(self)@, bytes@),
            final(self).program() == old(self).program(),
            reply == reply_to_bytes(old(self)@, bytes@),
    {
        match decode_message(bytes) {
            Some(text) => self.handle(text.as_str()),
            None => Reply { wake: false, terminate: None, fault: Some(Fault::Undecodable) },
        }
    }
}

/// The text in upper case, as `str::to_uppercase` gives it: each character
/// replaced by what Unicode maps it to, which may be several characters.
pub uninterp spec fn uppercase(text: Seq<char>) -> Seq<char>;

/// The text in upper case, by `str::to_uppercase`.
///
/// Trusted, not proved: that the result depends on the text alone. The
/// contract gives the result its name and says nothing of what it holds.
#[verifier::external_body]
fn to_uppercase(text: &str) -> (upper: String)
    ensures
        upper@ == uppercase(text@),
{
    text.to_uppercase()
}

/// The words in UTF-8, one separator between each two.
pub open spec fn joined(words: Seq<Seq<char>>) -> Seq<u8>
    decreases words.len(),
{
    if words.len() == 0 {
        Seq::empty()
    } else if words.len() == 1 {
        encode_utf8(words[0])
    } else {
        joined(words.drop_last()).push(SEPARATOR) + encode_utf8(words.last())
    }
}

/// The message that carries the words: joined, then the terminator.
pub open spec fn message(words: Seq<Seq<char>>) -> Seq<u8> {
    joined(words).push(TERMINATOR)
}

/// The character sequences of a list of strings.
pub open spec fn texts(words: Seq<String>) -> Seq<Seq<char>> {
    words.map_values(|word: String| word@)
}

/// Writes the message that carries the words.
pub fn encode_message(words: &Vec<String>) -> (bytes: Vec<u8>)
    ensures
        bytes@ == message(texts(words@)),
{
    let mut bytes: Vec<u8> = Vec::new();
    let mut i: usize = 0;
    while i < words.len()
        invariant
            i <= words@.len(),
            bytes@ == joined(texts(words@).take(i as int)),
        decreases words@.len() - i,
    {
        if i > 0 {
            bytes.push(SEPARATOR);
        }
        let ghost before = bytes@;
        let word = words[i].as_str().as_bytes();
        let mut k: usize = 0;
        while k < word.len()
            invariant
                k <= word@.len(),
                bytes@ == before + word@.take(k as int),
            decreases word@.len() - k,
        {
            bytes.push(word[k]);
            k += 1;
        }
        proof {
            let all = texts(words@);
            assert(word@.take(k as int) == word@);
            assert(all.take(i + 1).drop_last() == all.take(i as int));
            assert(all.take(i + 1).last() == words@[i as int]@);
            assert(word@ == encode_utf8(all.take(i + 1).last()));
            if i == 0 {
                assert(all.take(i + 1)[0] == all.take(i + 1).last());
            }
        }
        i += 1;
    }
    assert(texts(words@).take(i as int) == texts(words@));
    bytes.push(TERMINATOR);
    bytes
}

/// The words that a client sends for its arguments: each argument after the
/// program's own name, in upper case.
pub open spec fn client_words(args: Seq<Seq<char>>) -> Seq<Seq<char>> {
    args.skip(1).map_values(|arg: Seq<char>| uppercase(arg))
}

/// The message that a client sends for its command line, the program's own
/// name first. `None` where the command line names no command.
pub fn client_message(args: &Vec<String>) -> (bytes: Option<Vec<u8>>)
    ensures
        match bytes {
            Some(bytes) => args@.len() >= 2 && bytes@ == message(client_words(texts(args@))),
            None => args@.len() < 2,
        },
{
    if args.len() < 2 {
        return None;
    }
    let mut words: Vec<String> = Vec::new();
    let mut i: usize = 1;
    while i < args.len()
        invariant
            1 <= i <= args@.len(),
            texts(words@) == client_words(texts(args@)).take(i - 1),
        decreases args@.len() - i,
    {
        let upper = to_uppercase(args[i].as_str());
        proof {
            let all = client_words(texts(args@));
            assert(texts(words@.push(upper)) == texts(words@).push(upper@));
            assert(all.take(i as int) == all.take(i - 1).push(all[i - 1]));
        }
        words.push(upper);
        i += 1;
    }
    assert(client_words(texts(args@)).take(i - 1) == client_words(texts(args@)));
    Some(encode_message(&words))
}

} // verus!
