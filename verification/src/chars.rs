//! Character classes for header names and values, and decimal rendering.
//!
//! A header value is accepted when every character is horizontal tab or a
//! visible ASCII character: exactly the texts that the header container can
//! both store and read back unchanged.  A header name is accepted when it is
//! a non-empty sequence of the token characters the header container parses;
//! ASCII capitals are folded to lower case on entry.
use vstd::prelude::*;

verus! {

/// Horizontal tab or visible ASCII (space through tilde).
pub open spec fn is_value_char(c: char) -> bool {
    c as int == 9 || (32 <= c as int && c as int <= 126)
}

/// Every character of `s` may stand in a header value.
pub open spec fn valid_header_value(s: Seq<char>) -> bool {
    forall|i: int| 0 <= i < s.len() ==> is_value_char(#[trigger] s[i])
}

/// The token characters a header name may hold, capitals included.
pub open spec fn is_name_char(c: char) -> bool {
    ||| c as int == 33  // !
    ||| (35 <= c as int && c as int <= 39)  // # $ % & '
    ||| c as int == 42 || c as int == 43  // * +
    ||| c as int == 45 || c as int == 46  // - .
    ||| (48 <= c as int && c as int <= 57)  // 0-9
    ||| (65 <= c as int && c as int <= 90)  // A-Z
    ||| (94 <= c as int && c as int <= 96)  // ^ _ `
    ||| (97 <= c as int && c as int <= 122)  // a-z
    ||| c as int == 124 || c as int == 126  // | ~
}

/// The longest header name the container parses.
pub const MAX_NAME_LEN: usize = 65535;

/// `s` is a non-empty sequence of header-name token characters, no longer
/// than the container parses.
pub open spec fn valid_header_name(s: Seq<char>) -> bool {
    0 < s.len() <= MAX_NAME_LEN && forall|i: int| 0 <= i < s.len() ==> is_name_char(
        #[trigger] s[i],
    )
}

/// An ASCII capital folded to lower case; any other character unchanged.
pub open spec fn lower_char(c: char) -> char {
    if 65 <= c as int && c as int <= 90 {
        ((c as u8) + 32) as char
    } else {
        c
    }
}

/// `s` with every ASCII capital folded to lower case.
pub open spec fn lower_name(s: Seq<char>) -> Seq<char> {
    s.map_values(|c: char| lower_char(c))
}

/// Exec mirror of `is_value_char`.
pub fn check_value_char(c: char) -> (b: bool)
    ensures
        b == is_value_char(c),
{
    let u = c as u32;
    u == 9 || (32 <= u && u <= 126)
}

/// Exec mirror of `is_name_char`.
pub fn check_name_char(c: char) -> (b: bool)
    ensures
        b == is_name_char(c),
{
    let u = c as u32;
    u == 33 || (35 <= u && u <= 39) || u == 42 || u == 43 || u == 45 || u == 46 || (48 <= u
        && u <= 57) || (65 <= u && u <= 90) || (94 <= u && u <= 96) || (97 <= u && u <= 122) || u
        == 124 || u == 126
}

/// Decides `valid_header_value(s@)`.
pub fn check_header_value(s: &str) -> (b: bool)
    ensures
        b == valid_header_value(s@),
{
    let n = s.unicode_len();
    let mut i: usize = 0;
    while i < n
        invariant
            n == s@.len(),
            i <= n,
            forall|j: int| 0 <= j < i ==> is_value_char(#[trigger] s@[j]),
        decreases n - i,
    {
        if !check_value_char(s.get_char(i)) {
            return false;
        }
        i += 1;
    }
    true
}

/// Decides `valid_header_name(s@)`.
pub fn check_header_name(s: &str) -> (b: bool)
    ensures
        b == valid_header_name(s@),
{
    let n = s.unicode_len();
    if n == 0 || n > MAX_NAME_LEN {
        return false;
    }
    let mut i: usize = 0;
    while i < n
        invariant
            n == s@.len(),
            i <= n,
            forall|j: int| 0 <= j < i ==> is_name_char(#[trigger] s@[j]),
        decreases n - i,
    {
        if !check_name_char(s.get_char(i)) {
            return false;
        }
        i += 1;
    }
    true
}

/// The decimal digit character for `d`.
pub open spec fn dec_char(d: nat) -> char {
    ((48 + d % 10) as u8) as char
}

/// The decimal ASCII rendering of `n`, most significant digit first.
pub open spec fn dec_digits(n: nat) -> Seq<char>
    decreases n,
{
    if n < 10 {
        seq![dec_char(n)]
    } else {
        dec_digits(n / 10).push(dec_char(n % 10))
    }
}

/// Every character of a decimal rendering may stand in a header value.
pub proof fn lemma_dec_digits_valid(n: nat)
    ensures
        valid_header_value(dec_digits(n)),
    decreases n,
{
    if n < 10 {
        assert(dec_digits(n) == seq![dec_char(n)]);
        assert(48 <= dec_char(n) as int <= 57);
    } else {
        lemma_dec_digits_valid(n / 10);
        assert(48 <= dec_char(n % 10) as int <= 57);
        assert(forall|i: int|
            0 <= i < dec_digits(n).len() - 1 ==> dec_digits(n)[i] == dec_digits(n / 10)[i]);
    }
}

/// Relies on `u64`'s `Display` impl: it writes the decimal digits of the
/// number, most significant first, with no sign and no padding.
#[verifier::external_body]
pub fn u64_to_dec(n: u64) -> (s: String)
    ensures
        s@ == dec_digits(n as nat),
{
    n.to_string()
}

} // verus!
