//! Avatar-URL derivation: a fixed template around the percent-encoded user
//! name.  The URL is a pure function of the name, so identical names always
//! map to identical URLs.

use vstd::prelude::*;
use vstd::string::*;
use crate::strutil::{hex_upper, push_char, spec_hex_upper};

verus! {

/// Fixed prefix of every avatar URL.
pub open spec fn avatar_prefix() -> Seq<char> {
    "https://avatars.dicebear.com/api/adventurer-neutral/"@
}

/// Characters that percent-encoding leaves as they are (the RFC 3986
/// unreserved set).
pub open spec fn is_unreserved(c: char) -> bool {
    (('a' as u32) <= (c as u32) && (c as u32) <= ('z' as u32)) || (('A' as u32) <= (c as u32) && (c
        as u32) <= ('Z' as u32)) || (('0' as u32) <= (c as u32) && (c as u32) <= ('9' as u32)) || c
        == '-' || c == '.' || c == '_' || c == '~'
}

/// Percent-escape of one byte: `%` followed by two upper-case hex digits.
pub open spec fn spec_pct_byte(b: u8) -> Seq<char> {
    seq!['%', spec_hex_upper(b as int / 16), spec_hex_upper(b as int % 16)]
}

/// Percent-escapes of a byte sequence, concatenated.
pub open spec fn spec_pct_bytes(bs: Seq<u8>) -> Seq<char>
    decreases bs.len(),
{
    if bs.len() == 0 {
        Seq::empty()
    } else {
        spec_pct_byte(bs[0]) + spec_pct_bytes(bs.drop_first())
    }
}

/// Percent-encoding of one character: unreserved characters stand for
/// themselves, every other character becomes the percent-escapes of its
/// UTF-8 bytes.
pub open spec fn spec_encode_component_char(c: char) -> Seq<char> {
    if is_unreserved(c) {
        seq![c]
    } else {
        spec_pct_bytes(vstd::utf8::encode_scalar(c as u32))
    }
}

/// Percent-encoding of a character sequence.
pub open spec fn spec_encode_component(s: Seq<char>) -> Seq<char>
    decreases s.len(),
{
    if s.len() == 0 {
        Seq::empty()
    } else {
        spec_encode_component_char(s[0]) + spec_encode_component(s.drop_first())
    }
}

/// The avatar URL for a name: fixed prefix, percent-encoded name, `.svg`.
pub open spec fn spec_avatar_url(name: Seq<char>) -> Seq<char> {
    avatar_prefix() + spec_encode_component(name) + ".svg"@
}

fn push_pct_byte(out: &mut String, b: u8)
    ensures
        final(out)@ == old(out)@ + spec_pct_byte(b),
{
    push_char(out, '%');
    push_char(out, hex_upper((b / 16) as u32));
    push_char(out, hex_upper((b % 16) as u32));
    proof {
        assert(old(out)@.push('%').push(spec_hex_upper(b as int / 16)).push(
            spec_hex_upper(b as int % 16),
        ) =~= old(out)@ + spec_pct_byte(b));
    }
}

proof fn lemma_pct_bytes_small(bs: Seq<u8>)
    requires
        1 <= bs.len() <= 4,
    ensures
        bs.len() == 1 ==> spec_pct_bytes(bs) == spec_pct_byte(bs[0]),
        bs.len() == 2 ==> spec_pct_bytes(bs) == spec_pct_byte(bs[0]) + spec_pct_byte(bs[1]),
        bs.len() == 3 ==> spec_pct_bytes(bs) == spec_pct_byte(bs[0]) + spec_pct_byte(bs[1])
            + spec_pct_byte(bs[2]),
        bs.len() == 4 ==> spec_pct_bytes(bs) == spec_pct_byte(bs[0]) + spec_pct_byte(bs[1])
            + spec_pct_byte(bs[2]) + spec_pct_byte(bs[3]),
    decreases bs.len(),
{
    if bs.len() == 1 {
        assert(bs.drop_first() =~= Seq::<u8>::empty());
        assert(spec_pct_bytes(Seq::<u8>::empty()) == Seq::<char>::empty());
        assert(spec_pct_bytes(bs) =~= spec_pct_byte(bs[0]));
    } else {
        lemma_pct_bytes_small(bs.drop_first());
        if bs.len() == 2 {
            assert(spec_pct_bytes(bs) =~= spec_pct_byte(bs[0]) + spec_pct_byte(bs[1]));
        } else if bs.len() == 3 {
            assert(spec_pct_bytes(bs) =~= spec_pct_byte(bs[0]) + spec_pct_byte(bs[1])
                + spec_pct_byte(bs[2]));
        } else {
            assert(spec_pct_bytes(bs) =~= spec_pct_byte(bs[0]) + spec_pct_byte(bs[1])
                + spec_pct_byte(bs[2]) + spec_pct_byte(bs[3]));
        }
    }
}

fn push_encoded_char(out: &mut String, c: char)
    ensures
        final(out)@ == old(out)@ + spec_encode_component_char(c),
{
    let u = c as u32;
    let unreserved = (('a' as u32) <= u && u <= ('z' as u32)) || (('A' as u32) <= u && u <= ('Z'
        as u32)) || (('0' as u32) <= u && u <= ('9' as u32)) || c == '-' || c == '.' || c == '_'
        || c == '~';
    if unreserved {
        push_char(out, c);
        proof {
            assert(old(out)@.push(c) =~= old(out)@ + seq![c]);
        }
    } else {
        proof {
            vstd::utf8::char_is_scalar(c);
        }
        let ghost bs = vstd::utf8::encode_scalar(u);
        if u <= 0x7f {
            push_pct_byte(out, (u & 0x7F) as u8);
        } else if u <= 0x7ff {
            push_pct_byte(out, 0xC0u8 | (((u >> 6) & 0x1F) as u8));
            push_pct_byte(out, 0x80u8 | ((u & 0x3F) as u8));
        } else if u <= 0xffff {
            push_pct_byte(out, 0xE0u8 | (((u >> 12) & 0x0F) as u8));
            push_pct_byte(out, 0x80u8 | (((u >> 6) & 0x3F) as u8));
            push_pct_byte(out, 0x80u8 | ((u & 0x3F) as u8));
        } else {
            push_pct_byte(out, 0xF0u8 | (((u >> 18) & 0x7) as u8));
            push_pct_byte(out, 0x80u8 | (((u >> 12) & 0x3F) as u8));
            push_pct_byte(out, 0x80u8 | (((u >> 6) & 0x3F) as u8));
            push_pct_byte(out, 0x80u8 | ((u & 0x3F) as u8));
        }
        proof {
            lemma_pct_bytes_small(bs);
            assert(out@ =~= old(out)@ + spec_pct_bytes(bs));
        }
    }
}

fn append_encoded(out: &mut String, s: &str, n: usize, i: usize)
    requires
        n as int == s@.len(),
        i <= n,
    ensures
        final(out)@ == old(out)@ + spec_encode_component(s@.skip(i as int)),
    decreases n - i,
{
    if i < n {
        let c = s.get_char(i);
        push_encoded_char(out, c);
        append_encoded(out, s, n, i + 1);
        proof {
            assert(s@.skip(i as int).drop_first() =~= s@.skip(i as int + 1));
            assert(s@.skip(i as int)[0] == s@[i as int]);
            assert(old(out)@ + spec_encode_component_char(c) + spec_encode_component(
                s@.skip(i as int + 1),
            ) =~= old(out)@ + spec_encode_component(s@.skip(i as int)));
        }
    } else {
        proof {
            assert(s@.skip(i as int) =~= Seq::<char>::empty());
            assert(old(out)@ + spec_encode_component(s@.skip(i as int)) =~= old(out)@);
        }
    }
}

/// The avatar URL derived from a user name.  The result is a function of
/// the name alone, so repeated calls on the same name yield the same URL.
pub fn avatar_url(name: &str) -> (r: String)
    ensures
        r@ == spec_avatar_url(name@),
{
    let mut out = String::from_str("https://avatars.dicebear.com/api/adventurer-neutral/");
    let n = name.unicode_len();
    append_encoded(&mut out, name, n, 0);
    out.append(".svg");
    proof {
        assert(name@.skip(0) =~= name@);
    }
    out
}

} // verus!
