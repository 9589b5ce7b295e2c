//! Text primitives of the control protocol: whitespace, tokens and decimal
//! numbers, each defined over sequences of characters.

use vstd::prelude::*;
use vstd::std_specs::iter::IteratorSpec;

verus! {

/// Whether `c` carries the Unicode `White_Space` property.
pub open spec fn is_space(c: char) -> bool {
    let n = c as u32;
    ||| 0x09 <= n <= 0x0D
    ||| n == 0x20
    ||| n == 0x85
    ||| n == 0xA0
    ||| n == 0x1680
    ||| 0x2000 <= n <= 0x200A
    ||| n == 0x2028
    ||| n == 0x2029
    ||| n == 0x202F
    ||| n == 0x205F
    ||| n == 0x3000
}

/// Tests a character for the Unicode `White_Space` property.
pub fn is_whitespace(c: char) -> (b: bool)
    ensures
        b == is_space(c),
{
    let n: u32 = c as u32;
    (0x09 <= n && n <= 0x0D) || n == 0x20 || n == 0x85 || n == 0xA0 || n == 0x1680 || (0x2000 <= n
        && n <= 0x200A) || n == 0x2028 || n == 0x2029 || n == 0x202F || n == 0x205F || n == 0x3000
}

/// Collects the characters of `text`, in order.
pub fn chars_of(text: &str) -> (out: Vec<char>)
    ensures
        out@ == text@,
{
    broadcast use vstd::string::group_string_axioms;

    let mut out: Vec<char> = Vec::new();
    let mut rest = text.chars();
    loop
        invariant
            out@ + rest.remaining() == text@,
            rest.decrease() is Some,
        ensures
            out@ == text@,
        decreases rest.decrease()->0,
    {
        match rest.next() {
            Some(c) => {
                out.push(c);
            },
            None => {
                break ;
            },
        }
    }
    out
}

/// Index of the first character at or after `i` that is not white space; the
/// length of `s` if there is none.
pub open spec fn skip_spaces(s: Seq<char>, i: int) -> int
    decreases s.len() - i,
{
    if 0 <= i < s.len() && is_space(s[i]) {
        skip_spaces(s, i + 1)
    } else {
        i
    }
}

/// Index of the first character at or after `i` that is white space; the
/// length of `s` if there is none.
pub open spec fn skip_word(s: Seq<char>, i: int) -> int
    decreases s.len() - i,
{
    if 0 <= i < s.len() && !is_space(s[i]) {
        skip_word(s, i + 1)
    } else {
        i
    }
}

/// The maximal runs of characters other than white space that `s` holds from
/// index `i` on, in order.
pub open spec fn tokens_from(s: Seq<char>, i: int) -> Seq<Seq<char>>
    decreases s.len() - i,
{
    let start = skip_spaces(s, i);
    let end = skip_word(s, start);
    if 0 <= i <= start < end <= s.len() {
        seq![s.subrange(start, end)] + tokens_from(s, end)
    } else {
        Seq::empty()
    }
}

/// The white-space separated tokens of `s`: its maximal runs of characters
/// other than white space, in order.
pub open spec fn tokens(s: Seq<char>) -> Seq<Seq<char>> {
    tokens_from(s, 0)
}

/// The character sequences that a vector of tokens holds.
pub open spec fn words(parts: Seq<Vec<char>>) -> Seq<Seq<char>> {
    parts.map_values(|part: Vec<char>| part@)
}

/// `skip_spaces` passes white space only and stops at the end or at a
/// character that is none.
pub proof fn lemma_skip_spaces(s: Seq<char>, i: int)
    requires
        0 <= i <= s.len(),
    ensures
        i <= skip_spaces(s, i) <= s.len(),
        forall|j: int| i <= j < skip_spaces(s, i) ==> is_space(s[j]),
        skip_spaces(s, i) < s.len() ==> !is_space(s[skip_spaces(s, i)]),
    decreases s.len() - i,
{
    if i < s.len() && is_space(s[i]) {
        lemma_skip_spaces(s, i + 1);
    }
}

/// `skip_word` passes no white space and stops at the end or at white space.
pub proof fn lemma_skip_word(s: Seq<char>, i: int)
    requires
        0 <= i <= s.len(),
    ensures
        i <= skip_word(s, i) <= s.len(),
        forall|j: int| i <= j < skip_word(s, i) ==> !is_space(s[j]),
        skip_word(s, i) < s.len() ==> is_space(s[skip_word(s, i)]),
    decreases s.len() - i,
{
    if i < s.len() && !is_space(s[i]) {
        lemma_skip_word(s, i + 1);
    }
}

/// Every token is a word: it is not empty and holds no white space.
pub proof fn lemma_tokens_are_words(s: Seq<char>, i: int)
    requires
        0 <= i <= s.len(),
    ensures
        forall|k: int|
            0 <= k < tokens_from(s, i).len() ==> {
                let token = #[trigger] tokens_from(s, i)[k];
                &&& token.len() > 0
                &&& forall|j: int| 0 <= j < token.len() ==> !is_space(token[j])
            },
    decreases s.len() - i,
{
    let start = skip_spaces(s, i);
    lemma_skip_spaces(s, i);
    let end = skip_word(s, start);
    lemma_skip_word(s, start);
    if start < end {
        lemma_tokens_are_words(s, end);
        let first = s.subrange(start, end);
        let rest = tokens_from(s, end);
        assert(tokens_from(s, i) == seq![first] + rest);
        assert forall|k: int| 0 <= k < tokens_from(s, i).len() implies {
            let token = #[trigger] tokens_from(s, i)[k];
            &&& token.len() > 0
            &&& forall|j: int| 0 <= j < token.len() ==> !is_space(token[j])
        } by {
            if k > 0 {
                assert(tokens_from(s, i)[k] == rest[k - 1]);
            }
        }
    }
}

/// A text of white space only, and the empty text, hold no token.
pub proof fn lemma_blank_has_no_tokens(s: Seq<char>)
    requires
        forall|j: int| 0 <= j < s.len() ==> is_space(s[j]),
    ensures
        tokens(s).len() == 0,
{
    lemma_skip_spaces(s, 0);
}

/// A text without white space that is not empty is its own single token.
pub proof fn lemma_word_is_one_token(s: Seq<char>)
    requires
        s.len() > 0,
        forall|j: int| 0 <= j < s.len() ==> !is_space(s[j]),
    ensures
        tokens(s) == seq![s],
{
    lemma_skip_word(s, 0);
    assert(skip_spaces(s, 0) == 0);
    assert(skip_word(s, 0) == s.len());
    assert(skip_spaces(s, s.len() as int) == s.len());
    assert(tokens_from(s, s.len() as int) == Seq::<Seq<char>>::empty());
    assert(s.subrange(0, s.len() as int) == s);
}

/// Splits `s` at white space, as `tokens` defines it.
pub fn split_whitespace(s: &[char]) -> (parts: Vec<Vec<char>>)
    ensures
        words(parts@) == tokens(s@),
{
    let n = s.len();
    let mut parts: Vec<Vec<char>> = Vec::new();
    let mut i: usize = 0;
    loop
        invariant
            n == s@.len(),
            i <= n,
            tokens(s@) == words(parts@) + tokens_from(s@, i as int),
        ensures
            words(parts@) == tokens(s@),
        decreases n - i,
    {
        let mut start = i;
        while start < n && is_whitespace(s[start])
            invariant
                n == s@.len(),
                i <= start <= n,
                skip_spaces(s@, start as int) == skip_spaces(s@, i as int),
            decreases n - start,
        {
            start += 1;
        }
        if start == n {
            break ;
        }
        let mut word: Vec<char> = Vec::new();
        let mut end = start;
        while end < n && !is_whitespace(s[end])
            invariant
                n == s@.len(),
                start <= end <= n,
                skip_word(s@, end as int) == skip_word(s@, start as int),
                word@ == s@.subrange(start as int, end as int),
            decreases n - end,
        {
            word.push(s[end]);
            end += 1;
        }
        proof {
            assert(skip_spaces(s@, i as int) == start);
            assert(skip_word(s@, start as int) == end);
            assert(start < end);
            assert(tokens_from(s@, i as int) == seq![s@.subrange(start as int, end as int)]
                + tokens_from(s@, end as int));
            assert(words(parts@.push(word)) == words(parts@).push(word@));
            assert(words(parts@).push(word@) + tokens_from(s@, end as int) == words(parts@) + (
            seq![word@] + tokens_from(s@, end as int)));
        }
        parts.push(word);
        i = end;
    }
    parts
}

/// Whether `c` is one of the ten ASCII digits.
pub open spec fn is_digit(c: char) -> bool {
    0x30 <= c as u32 <= 0x39
}

/// The value of a digit; 0 for any other character.
pub open spec fn digit(c: char) -> nat {
    if is_digit(c) {
        (c as u32 - 0x30) as nat
    } else {
        0
    }
}

/// Whether `s` holds ASCII digits only.
pub open spec fn all_digits(s: Seq<char>) -> bool {
    forall|i: int| 0 <= i < s.len() ==> is_digit(#[trigger] s[i])
}

/// The number that the digits of `s` write in base ten, first digit first.
pub open spec fn number(s: Seq<char>) -> nat
    decreases s.len(),
{
    if s.len() == 0 {
        0
    } else {
        10 * number(s.drop_last()) + digit(s.last())
    }
}

/// What is left of `s` without one leading plus sign.
pub open spec fn unsigned(s: Seq<char>) -> Seq<char> {
    if s.len() > 0 && s[0] == '+' {
        s.drop_first()
    } else {
        s
    }
}

/// The unsigned 64-bit number that `s` writes in base ten: an optional plus
/// sign, then one digit or more, and a value that fits. Anything else writes
/// no number.
pub open spec fn decimal(s: Seq<char>) -> Option<u64> {
    let body = unsigned(s);
    if body.len() > 0 && all_digits(body) && number(body) <= u64::MAX {
        Some(number(body) as u64)
    } else {
        None
    }
}

/// A text with a character that is neither a digit nor a leading plus sign
/// writes no number.
pub proof fn lemma_decimal_needs_digits(s: Seq<char>, i: int)
    requires
        0 <= i < s.len(),
        !is_digit(s[i]),
        !(i == 0 && s[0] == '+'),
    ensures
        decimal(s) is None,
{
    let body = unsigned(s);
    if s[0] == '+' {
        assert(!is_digit(body[i - 1]));
    } else {
        assert(!is_digit(body[i]));
    }
}

/// A prefix writes no larger a number than the whole.
pub proof fn lemma_number_prefix(s: Seq<char>, k: int)
    requires
        0 <= k <= s.len(),
    ensures
        number(s.take(k)) <= number(s),
    decreases s.len() - k,
{
    if k < s.len() {
        lemma_number_prefix(s, k + 1);
        assert(s.take(k + 1).drop_last() == s.take(k));
    } else {
        assert(s.take(k) == s);
    }
}

/// Reads an unsigned 64-bit number in base ten, as `decimal` defines it.
pub fn parse_decimal(s: &[char]) -> (value: Option<u64>)
    ensures
        value == decimal(s@),
{
    let n = s.len();
    let start: usize = if n > 0 && s[0] == '+' {
        1
    } else {
        0
    };
    if start == n {
        return None;
    }
    let ghost body = unsigned(s@);
    assert(body == s@.subrange(start as int, n as int));
    let mut value: u64 = 0;
    let mut i: usize = start;
    while i < n
        invariant
            n == s@.len(),
            start <= i <= n,
            body == unsigned(s@),
            body == s@.subrange(start as int, n as int),
            all_digits(body.take(i - start)),
            value == number(body.take(i - start)),
        decreases n - i,
    {
        let c: u32 = s[i] as u32;
        if c < 0x30 || c > 0x39 {
            assert(!is_digit(body[i - start]));
            return None;
        }
        let d: u64 = (c - 0x30) as u64;
        proof {
            let k = i - start;
            assert(body.take(k + 1).drop_last() == body.take(k));
            assert(body.take(k + 1).last() == s@[i as int]);
            assert(number(body.take(k + 1)) == 10 * value + d);
            lemma_number_prefix(body, k + 1);
        }
        let shifted = match value.checked_mul(10) {
            Some(shifted) => shifted,
            None => {
                return None;
            },
        };
        value = match shifted.checked_add(d) {
            Some(sum) => sum,
            None => {
                return None;
            },
        };
        i += 1;
    }
    assert(body.take(n - start) == body);
    Some(value)
}

} // verus!
