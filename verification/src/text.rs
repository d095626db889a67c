//! Small string operations that the rest of the library builds on.
use vstd::prelude::*;

verus! {

/// `String::push` appends one character at the end (std documentation).
pub assume_specification[ String::push ](string: &mut String, ch: char)
    ensures
        final(string)@ == old(string)@.push(ch),
;

/// `String::pop` removes the last character and returns it, or returns
/// `None` and leaves the string unchanged when it is empty (std documentation).
pub assume_specification[ String::pop ](string: &mut String) -> (res: Option<char>)
    ensures
        old(string)@.len() == 0 ==> res is None && final(string)@ == old(string)@,
        old(string)@.len() > 0 ==> res == Some(old(string)@.last())
            && final(string)@ == old(string)@.drop_last(),
;

/// Whether `prefix` is a prefix of `s`, character by character.
pub open spec fn has_prefix(s: Seq<char>, prefix: Seq<char>) -> bool {
    prefix.len() <= s.len() && s.subrange(0, prefix.len() as int) == prefix
}

/// Calls `str::strip_prefix` with a string pattern: when `prefix` begins `s`,
/// the rest of `s` after it, and `None` otherwise (std documentation).
#[verifier::external_body]
pub(crate) fn strip_prefix<'a>(s: &'a str, prefix: &str) -> (res: Option<&'a str>)
    ensures
        res is Some <==> has_prefix(s@, prefix@),
        res matches Some(rest) ==> rest@ == s@.skip(prefix@.len() as int),
{
    s.strip_prefix(prefix)
}

/// A character of the Unicode general category Cc (control), which is
/// exactly the code points U+0000..=U+001F and U+007F..=U+009F.
pub open spec fn is_control_spec(c: char) -> bool {
    (c as u32) <= 0x1f || (0x7f <= (c as u32) && (c as u32) <= 0x9f)
}

/// Whether `c` is a control character, as `char::is_control` decides.
pub fn is_control(c: char) -> (res: bool)
    ensures
        res == is_control_spec(c),
{
    let code: u32 = c as u32;
    code <= 0x1f || (0x7f <= code && code <= 0x9f)
}

/// The character of a decimal digit.
pub open spec fn digit_char(d: nat) -> char {
    (48 + d) as char
}

/// The decimal notation of `n`, without leading zeros.
pub open spec fn decimal(n: nat) -> Seq<char>
    decreases n,
{
    if n < 10 {
        seq![digit_char(n)]
    } else {
        decimal(n / 10).push(digit_char(n % 10))
    }
}

/// Appends the decimal notation of `n` to `s`.
pub fn push_decimal(s: &mut String, n: usize)
    ensures
        final(s)@ == old(s)@ + decimal(n as nat),
    decreases n,
{
    if n >= 10 {
        push_decimal(s, n / 10);
    }
    let d: u8 = (n % 10) as u8;
    let c: char = (48u8 + d) as char;
    assert(c == digit_char((n % 10) as nat));
    s.push(c);
}

/// The control characters are exactly U+0000..=U+001F and U+007F..=U+009F:
/// every character above U+009F, as every one from U+0020 to U+007E, is not one.
pub proof fn lemma_control_range(c: char)
    ensures
        is_control_spec(c) <==> ((c as u32) <= 0x1f || (0x7f <= (c as u32) && (c as u32) <= 0x9f)),
        (c as u32) > 0x9f ==> !is_control_spec(c),
        (0x20 <= (c as u32) && (c as u32) < 0x7f) ==> !is_control_spec(c),
{
}

/// The number that a string of decimal digits denotes, read left to right.
pub open spec fn digits_value(s: Seq<char>) -> int
    decreases s.len(),
{
    if s.len() == 0 {
        0
    } else {
        digits_value(s.drop_last()) * 10 + ((s.last() as u32) - 48)
    }
}

/// The decimal notation of `n` is made of digits, does not begin with a
/// zero unless it is `0`, and denotes `n`.
pub proof fn lemma_decimal_denotes(n: nat)
    ensures
        digits_value(decimal(n)) == n,
        forall|i: int| 0 <= i < decimal(n).len() ==> '0' <= #[trigger] decimal(n)[i] <= '9',
        decimal(n).len() >= 1,
        decimal(n)[0] == '0' ==> n == 0,
    decreases n,
{
    assert(digit_char(n % 10) as u32 == 48 + n % 10);
    if n >= 10 {
        lemma_decimal_denotes(n / 10);
        assert(decimal(n).last() == digit_char(n % 10));
        assert(n == (n / 10) * 10 + n % 10);
        assert(decimal(n).drop_last() =~= decimal(n / 10));
        assert(digits_value(decimal(n)) == digits_value(decimal(n / 10)) * 10 + (
        (decimal(n).last() as u32) - 48));
        let d = decimal(n / 10);
        assert(decimal(n).drop_last() =~= d);
        assert(decimal(n)[0] == d[0]);
        assert forall|i: int| 0 <= i < decimal(n).len() implies '0' <= #[trigger] decimal(n)[i] <= '9' by {
            if i < d.len() {
                assert(decimal(n)[i] == d[i]);
            }
        }
    } else {
        assert(decimal(n).drop_last() =~= Seq::<char>::empty());
        assert(digits_value(decimal(n)) == digits_value(Seq::<char>::empty()) * 10 + (
        (decimal(n).last() as u32) - 48));
    }
}

} // verus!
