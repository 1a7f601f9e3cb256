use vstd::prelude::*;
use crate::types::{SomeError, UserId};

verus! {

/// The number of digits in a user code.
pub const CODE_LEN: usize = 6;

pub open spec fn is_digit(c: char) -> bool {
    '0' <= c && c <= '9'
}

/// `s` ends with six decimal digits.
pub open spec fn ends_with_code(s: Seq<char>) -> bool {
    s.len() >= 6 && forall|i: int| s.len() - 6 <= i < s.len() ==> is_digit(#[trigger] s[i])
}

/// `s` is a user code: exactly six decimal digits.
pub open spec fn is_code(s: Seq<char>) -> bool {
    s.len() == 6 && ends_with_code(s)
}

/// The value of a string of decimal digits.
pub open spec fn digits_value(s: Seq<char>) -> int
    decreases s.len(),
{
    if s.len() == 0 {
        0
    } else {
        digits_value(s.drop_last()) * 10 + (s.last() as int - '0' as int)
    }
}

/// Relies on regex::Regex::new and regex::Regex::is_match for the pattern
/// `[0-9]{6}$`, which compiles: without the multi-line flag `$` matches only at
/// the end of the text, so a match means the text ends with six characters from
/// '0' to '9'.
#[verifier::external_body]
fn matches_code_pattern(s: &str) -> (r: bool)
    ensures
        r == ends_with_code(s@),
{
    match regex::Regex::new(r"[0-9]{6}$") {
        Ok(re) => re.is_match(s),
        Err(_) => false,
    }
}

impl UserId {
    /// Whether the code has the shape of a user code.
    pub fn validate(&self) -> (r: bool)
        ensures
            r == ends_with_code(self.id@),
    {
        matches_code_pattern(self.id.as_str())
    }
}

/// Reads a user code as the number it names: `Ok` exactly for six digits.
pub fn parse_user_code(s: &str) -> (r: Result<i32, SomeError>)
    ensures
        is_code(s@) ==> r == Ok::<i32, SomeError>(digits_value(s@) as i32),
        !is_code(s@) ==> r == Err::<i32, SomeError>(SomeError::ValidationError),
        r is Ok ==> 0 <= r->Ok_0 < 1000000 && r->Ok_0 == digits_value(s@),
{
    if !matches_code_pattern(s) || s.unicode_len() != CODE_LEN {
        return Err(SomeError::ValidationError);
    }
    let mut v: i32 = 0;
    let mut i: usize = 0;
    while i < CODE_LEN
        invariant
            is_code(s@),
            i <= CODE_LEN,
            v == digits_value(s@.take(i as int)),
            0 <= v < pow10(i as nat),
        decreases CODE_LEN - i,
    {
        let c = s.get_char(i);
        proof {
            assert(is_digit(s@[i as int]));
            assert(s@.take(i as int + 1).drop_last() =~= s@.take(i as int));
            assert(pow10(i as nat + 1) == pow10(i as nat) * 10);
            assert(pow10(i as nat) <= 100000) by { lemma_pow10_bound(i as nat); }
        }
        v = v * 10 + (c as u32 - '0' as u32) as i32;
        i = i + 1;
    }
    proof {
        assert(s@.take(6) =~= s@);
        reveal_with_fuel(pow10, 7);
    }
    Ok(v)
}

pub open spec fn pow10(n: nat) -> int
    decreases n,
{
    if n == 0 { 1 } else { pow10((n - 1) as nat) * 10 }
}

proof fn lemma_pow10_bound(n: nat)
    requires
        n <= 5,
    ensures
        pow10(n) <= 100000,
{
    reveal_with_fuel(pow10, 6);
}

} // verus!
