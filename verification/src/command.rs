//! The options a game is started with.

use vstd::prelude::*;
use vstd::string::StringExecFns;
use crate::error::WordError;
use crate::text::chars_of;

verus! {

/// How a game is set up.
#[derive(Debug)]
pub struct Opt {
    /// The secret word, where it is fixed in advance.
    pub word: Option<String>,
    /// Whether the secret word is drawn from the list of final words.
    pub random: bool,
    /// Whether later guesses must respect what earlier ones revealed.
    pub difficult: bool,
    /// Where the list of final words is read from, in place of the built-in one.
    pub final_set: Option<String>,
    /// Where the list of acceptable words is read from, in place of the
    /// built-in one.
    pub acceptable_set: Option<String>,
    /// Whether statistics are printed.
    pub stats: bool,
    /// Where game state is saved to and loaded from.
    pub state: Option<String>,
    /// With a drawn secret word: how many attempts count as used up when play
    /// begins, from 1 to 6.
    pub day: Option<u32>,
    /// The seed of the draw.
    pub seed: Option<u64>,
}

impl Default for Opt {
    /// Nothing fixed, nothing switched on.
    fn default() -> (o: Opt)
        ensures
            o.word is None,
            !o.random,
            !o.difficult,
            o.final_set is None,
            o.acceptable_set is None,
            !o.stats,
            o.state is None,
            o.day is None,
            o.seed is None,
    {
        Opt {
            word: None,
            random: false,
            difficult: false,
            final_set: None,
            acceptable_set: None,
            stats: false,
            state: None,
            day: None,
            seed: None,
        }
    }
}

/// The seed of the draw where none is given.
pub const DEFAULT_SEED: u64 = 2048;

/// Whether `c` is one of the digits `0` to `9`.
pub open spec fn is_digit(c: char) -> bool {
    '0' <= c && c <= '9'
}

/// What is left of a number's text after one leading `+`, if it has one.
pub open spec fn unsigned_part(s: Seq<char>) -> Seq<char> {
    if s.len() > 0 && s[0] == '+' {
        s.drop_first()
    } else {
        s
    }
}

/// Whether a text is a decimal number: digits only, at least one, after at
/// most one leading `+`.
pub open spec fn is_number(s: Seq<char>) -> bool {
    let d = unsigned_part(s);
    d.len() > 0 && forall|i: int| 0 <= i < d.len() ==> is_digit(#[trigger] d[i])
}

/// The number that a text of digits denotes.
pub open spec fn digits_value(d: Seq<char>) -> nat
    decreases d.len(),
{
    if d.len() == 0 {
        0
    } else {
        (digits_value(d.drop_last()) * 10 + (d.last() as u32 - '0' as u32)) as nat
    }
}

/// The number that a decimal text denotes.
pub open spec fn number_value(s: Seq<char>) -> nat {
    digits_value(unsigned_part(s))
}

proof fn lemma_digits_value_grows(d: Seq<char>, k: int)
    requires
        0 <= k <= d.len(),
        forall|i: int| 0 <= i < d.len() ==> is_digit(#[trigger] d[i]),
    ensures
        digits_value(d.take(k)) <= digits_value(d),
    decreases d.len() - k,
{
    if k < d.len() {
        lemma_digits_value_grows(d, k + 1);
        assert(d.take(k + 1).drop_last() =~= d.take(k));
        assert(is_digit(d[k]));
    } else {
        assert(d.take(k) =~= d);
    }
}

/// Reads the number of the day a game resumes at: a decimal number from 1
/// to 6.
pub fn parse_day(src: &str) -> (r: Result<u32, WordError>)
    ensures
        match r {
            Ok(day) => is_number(src@) && day == number_value(src@) && 1 <= day <= 6,
            Err(WordError::ParseIntError) => !is_number(src@) || number_value(src@) > u32::MAX,
            Err(e) => is_number(src@) && number_value(src@) <= u32::MAX && !(1 <= number_value(
                src@,
            ) <= 6) && e.is_custom("day must be in 1..=6"@),
        },
{
    let chars = chars_of(src);
    let start: usize = if chars.len() > 0 && chars[0] == '+' {
        1
    } else {
        0
    };
    let ghost d = unsigned_part(src@);
    assert(d =~= chars@.subrange(start as int, chars.len() as int));
    if chars.len() == start {
        return Err(WordError::ParseIntError);
    }
    let mut value: u64 = 0;
    let mut i: usize = start;
    while i < chars.len()
        invariant
            start <= i <= chars.len(),
            d == chars@.subrange(start as int, chars.len() as int),
            d == unsigned_part(src@),
            forall|k: int| 0 <= k < i - start ==> is_digit(#[trigger] d[k]),
            value == digits_value(d.take(i - start)),
            value <= u32::MAX,
        decreases chars.len() - i,
    {
        let c = chars[i];
        if !(c >= '0' && c <= '9') {
            assert(!is_digit(d[i - start]));
            return Err(WordError::ParseIntError);
        }
        let digit: u64 = (c as u32 - '0' as u32) as u64;
        let next: u64 = value * 10 + digit;
        proof {
            assert(d.take(i - start + 1).drop_last() =~= d.take(i - start));
            assert(d.take(i - start + 1).last() == c);
            assert(next == digits_value(d.take(i - start + 1)));
        }
        if next > u32::MAX as u64 {
            proof {
                // Every later digit only adds to the number.
                if is_number(src@) {
                    lemma_digits_value_grows(d, i - start + 1);
                }
            }
            return Err(WordError::ParseIntError);
        }
        value = next;
        i += 1;
    }
    assert(d.take(i - start) =~= d);
    let day: u32 = value as u32;
    if day < 1 || day > 6 {
        return Err(WordError::CustomError(String::from_str("day must be in 1..=6")));
    }
    Ok(day)
}

} // verus!
