//! Where a session fork starts: the cursor it records and, when the fork
//! point is not the end, the event sequence number the source's events
//! are replayed through.  Reading and writing events is the caller's part.

use vstd::prelude::*;
use crate::text::{chars_of, decimal, digit_char, to_string};
use crate::turn_scheduler::SessionManagerError;

verus! {

/// The value of a decimal digit character.
pub open spec fn digit_value(c: char) -> nat {
    (c as u32 - '0' as u32) as nat
}

/// `c` is an ASCII decimal digit.
pub open spec fn is_digit(c: char) -> bool {
    '0' <= c && c <= '9'
}

/// The number a string of decimal digits writes.
pub open spec fn digits_value(s: Seq<char>) -> nat
    decreases s.len(),
{
    if s.len() == 0 {
        0
    } else {
        10 * digits_value(s.drop_last()) + digit_value(s.last())
    }
}

/// The text after an optional leading `+`.
pub open spec fn unsigned_digits(s: Seq<char>) -> Seq<char> {
    if s.len() > 0 && s[0] == '+' {
        s.drop_first()
    } else {
        s
    }
}

/// `u64::from_str`: an optional `+`, then one or more decimal digits whose
/// value fits in `u64`.
pub open spec fn parse_u64_spec(s: Seq<char>) -> Option<u64> {
    let d = unsigned_digits(s);
    if d.len() > 0 && (forall|i: int| 0 <= i < d.len() ==> is_digit(#[trigger] d[i])) && digits_value(d) <= u64::MAX {
        Some(digits_value(d) as u64)
    } else {
        None
    }
}

proof fn lemma_digits_monotone(s: Seq<char>, i: int)
    requires
        0 <= i <= s.len(),
    ensures
        digits_value(s.take(i)) <= digits_value(s),
    decreases s.len() - i,
{
    if i < s.len() {
        lemma_digits_monotone(s, i + 1);
        assert(s.take(i + 1).drop_last() =~= s.take(i));
    } else {
        assert(s.take(i) =~= s);
    }
}

/// Parses a decimal `u64` as `str::parse::<u64>` does.
pub fn parse_u64(text: &str) -> (r: Option<u64>)
    ensures
        r == parse_u64_spec(text@),
{
    let v = chars_of(text);
    let start: usize = if v.len() > 0 && v[0] == '+' { 1 } else { 0 };
    let ghost d = unsigned_digits(text@);
    proof {
        assert(d =~= v@.skip(start as int));
    }
    if start == v.len() {
        return None;
    }
    let mut value: u64 = 0;
    let mut i: usize = start;
    while i < v.len()
        invariant
            start <= i <= v@.len(),
            v@ == text@,
            d == v@.skip(start as int),
            d == unsigned_digits(text@),
            forall|k: int| 0 <= k < i - start ==> is_digit(#[trigger] d[k]),
            value == digits_value(d.take(i - start)),
        decreases v@.len() - i,
    {
        let c = v[i];
        proof {
            assert(d[i - start] == c);
            assert(d.take(i - start + 1).drop_last() =~= d.take(i - start));
            assert(d.take(i - start + 1).last() == c);
        }
        if !('0' <= c && c <= '9') {
            proof {
                assert(!is_digit(d[i - start]));
            }
            return None;
        }
        let digit: u64 = (c as u32 - '0' as u32) as u64;
        let next: u128 = value as u128 * 10 + digit as u128;
        if next > u64::MAX as u128 {
            proof {
                lemma_digits_monotone(d, i - start + 1);
                assert(digits_value(d.take(i - start + 1)) == 10 * value + digit);
            }
            return None;
        }
        value = next as u64;
        i = i + 1;
    }
    proof {
        assert(d.take(i - start) =~= d);
    }
    Some(value)
}

/// Where a fork starts.
pub struct ForkPoint {
    /// The cursor the fork records.
    pub cursor: String,
    /// The event sequence number to replay the source through, when the
    /// fork point is not the source's end.
    pub replay_through: Option<u64>,
}

/// Decides where a fork of a session at `source_cursor` starts: at the
/// requested cursor, which must be a decimal event sequence number, or at
/// the source's end.
pub fn fork_point(at_cursor: Option<&str>, source_cursor: &str) -> (r: Result<ForkPoint, SessionManagerError>)
    ensures
        match at_cursor {
            None => r matches Ok(p) && p.cursor@ == source_cursor@ && p.replay_through is None,
            Some(c) => match parse_u64_spec(c@) {
                Some(seq) => r matches Ok(p) && p.cursor@ == c@ && p.replay_through == Some(seq),
                None => r matches Err(SessionManagerError::InvalidCursor(t)) && t@ == c@,
            },
        },
{
    match at_cursor {
        None => Ok(ForkPoint { cursor: to_string(source_cursor), replay_through: None }),
        Some(c) => match parse_u64(c) {
            Some(seq) => Ok(ForkPoint { cursor: to_string(c), replay_through: Some(seq) }),
            None => Err(SessionManagerError::InvalidCursor(to_string(c))),
        },
    }
}

proof fn lemma_decimal_digits(n: nat)
    ensures
        decimal(n).len() > 0,
        forall|i: int| 0 <= i < decimal(n).len() ==> is_digit(#[trigger] decimal(n)[i]),
        digits_value(decimal(n)) == n,
    decreases n,
{
    if n < 10 {
        assert(digit_value(digit_char(n)) == n);
        assert(decimal(n).drop_last() =~= Seq::<char>::empty());
        assert(digits_value(Seq::<char>::empty()) == 0);
        assert(decimal(n).last() == digit_char(n));
    } else {
        lemma_decimal_digits(n / 10);
        let d = decimal(n);
        assert(d.drop_last() =~= decimal(n / 10));
        assert(digit_value(digit_char(n % 10)) == n % 10);
        assert(n == 10 * (n / 10) + n % 10);
        assert(d.last() == digit_char(n % 10));
        assert(digits_value(d) == 10 * digits_value(d.drop_last()) + digit_value(d.last()));
        assert forall|i: int| 0 <= i < d.len() implies is_digit(#[trigger] d[i]) by {
            if i < d.len() - 1 {
                assert(d[i] == decimal(n / 10)[i]);
            }
        }
    }
}

/// A cursor written as the decimal text of an event sequence number reads
/// back as that number, so a fork at any cursor the runtime hands out is
/// never refused as invalid.
pub proof fn law_cursor_round_trip(seq: u64)
    ensures
        parse_u64_spec(decimal(seq as nat)) == Some(seq),
{
    lemma_decimal_digits(seq as nat);
    assert(decimal(seq as nat)[0] != '+');
    assert(unsigned_digits(decimal(seq as nat)) == decimal(seq as nat));
}

/// The system prompt configuration a fork copies from its source, so that
/// both share the prompt prefix.
#[derive(Debug)]
pub struct SystemPromptConfig {
    pub text: String,
    pub fingerprint: String,
    pub extra_system_prompt: Option<String>,
}

/// What a fork copies of its source's system prompt: the configuration,
/// when the source has both a prompt text and its fingerprint; nothing
/// otherwise.
pub fn system_prompt_to_copy(
    text: Option<String>,
    fingerprint: Option<String>,
    extra_system_prompt: Option<String>,
) -> (r: Option<SystemPromptConfig>)
    ensures
        match (text, fingerprint) {
            (Some(t), Some(f)) => r matches Some(c) && c.text == t && c.fingerprint == f && c.extra_system_prompt
                == extra_system_prompt,
            _ => r is None,
        },
{
    match (text, fingerprint) {
        (Some(text), Some(fingerprint)) => Some(SystemPromptConfig { text, fingerprint, extra_system_prompt }),
        _ => None,
    }
}

} // verus!
