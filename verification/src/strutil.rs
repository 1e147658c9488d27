//! Small string helpers shared by the codec and the avatar template:
//! appending single characters, hexadecimal digits, and character-wise
//! string comparison.

use vstd::prelude::*;

verus! {

/// View of a sequence of `String`s as a sequence of character sequences.
pub open spec fn strings_view(v: Seq<String>) -> Seq<Seq<char>> {
    v.map(|i: int, s: String| s@)
}

/// Relies on `String::push`: appends exactly one character at the end of
/// the string.
#[verifier::external_body]
pub(crate) fn push_char(out: &mut String, c: char)
    ensures
        final(out)@ == old(out)@.push(c),
{
    out.push(c);
}

/// Character-by-character equality of two string slices.
pub fn str_eq(a: &str, b: &str) -> (r: bool)
    ensures
        r == (a@ == b@),
{
    let na = a.unicode_len();
    let nb = b.unicode_len();
    if na != nb {
        return false;
    }
    let mut i: usize = 0;
    while i < na
        invariant
            na as int == a@.len(),
            nb as int == b@.len(),
            na == nb,
            i <= na,
            forall|k: int| 0 <= k < i ==> a@[k] == b@[k],
        decreases na - i,
    {
        if a.get_char(i) != b.get_char(i) {
            return false;
        }
        i += 1;
    }
    proof {
        assert(a@ =~= b@);
    }
    true
}

/// Lower-case hexadecimal digit for a value below 16.
pub open spec fn spec_hex_lower(v: int) -> char {
    if v == 0 {
        '0'
    } else if v == 1 {
        '1'
    } else if v == 2 {
        '2'
    } else if v == 3 {
        '3'
    } else if v == 4 {
        '4'
    } else if v == 5 {
        '5'
    } else if v == 6 {
        '6'
    } else if v == 7 {
        '7'
    } else if v == 8 {
        '8'
    } else if v == 9 {
        '9'
    } else if v == 10 {
        'a'
    } else if v == 11 {
        'b'
    } else if v == 12 {
        'c'
    } else if v == 13 {
        'd'
    } else if v == 14 {
        'e'
    } else {
        'f'
    }
}

/// Upper-case hexadecimal digit for a value below 16.
pub open spec fn spec_hex_upper(v: int) -> char {
    if v == 10 {
        'A'
    } else if v == 11 {
        'B'
    } else if v == 12 {
        'C'
    } else if v == 13 {
        'D'
    } else if v == 14 {
        'E'
    } else if v == 15 {
        'F'
    } else {
        spec_hex_lower(v)
    }
}

pub(crate) fn hex_lower(v: u32) -> (c: char)
    requires
        v < 16,
    ensures
        c == spec_hex_lower(v as int),
{
    if v == 0 {
        '0'
    } else if v == 1 {
        '1'
    } else if v == 2 {
        '2'
    } else if v == 3 {
        '3'
    } else if v == 4 {
        '4'
    } else if v == 5 {
        '5'
    } else if v == 6 {
        '6'
    } else if v == 7 {
        '7'
    } else if v == 8 {
        '8'
    } else if v == 9 {
        '9'
    } else if v == 10 {
        'a'
    } else if v == 11 {
        'b'
    } else if v == 12 {
        'c'
    } else if v == 13 {
        'd'
    } else if v == 14 {
        'e'
    } else {
        'f'
    }
}

pub(crate) fn hex_upper(v: u32) -> (c: char)
    requires
        v < 16,
    ensures
        c == spec_hex_upper(v as int),
{
    if v == 10 {
        'A'
    } else if v == 11 {
        'B'
    } else if v == 12 {
        'C'
    } else if v == 13 {
        'D'
    } else if v == 14 {
        'E'
    } else if v == 15 {
        'F'
    } else {
        hex_lower(v)
    }
}

/// True for the characters `0`-`9`, `a`-`f` and `A`-`F`.
pub open spec fn is_hex_digit(c: char) -> bool {
    (('0' as u32) <= (c as u32) && (c as u32) <= ('9' as u32)) || (('a' as u32) <= (c as u32) && (c
        as u32) <= ('f' as u32)) || (('A' as u32) <= (c as u32) && (c as u32) <= ('F' as u32))
}

/// Numeric value of a hexadecimal digit (either case); zero for any other
/// character.
pub open spec fn spec_hex_val(c: char) -> int {
    if ('0' as u32) <= (c as u32) && (c as u32) <= ('9' as u32) {
        (c as u32) - ('0' as u32)
    } else if ('a' as u32) <= (c as u32) && (c as u32) <= ('f' as u32) {
        (c as u32) - ('a' as u32) + 10
    } else if ('A' as u32) <= (c as u32) && (c as u32) <= ('F' as u32) {
        (c as u32) - ('A' as u32) + 10
    } else {
        0
    }
}

/// Hexadecimal digit value of `c`, or `None` when `c` is no such digit.
pub(crate) fn hex_val(c: char) -> (r: Option<u32>)
    ensures
        r is Some <==> is_hex_digit(c),
        r matches Some(v) ==> v as int == spec_hex_val(c) && v < 16,
{
    let u = c as u32;
    if ('0' as u32) <= u && u <= ('9' as u32) {
        Some(u - ('0' as u32))
    } else if ('a' as u32) <= u && u <= ('f' as u32) {
        Some(u - ('a' as u32) + 10)
    } else if ('A' as u32) <= u && u <= ('F' as u32) {
        Some(u - ('A' as u32) + 10)
    } else {
        None
    }
}

} // verus!
