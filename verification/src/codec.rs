//! Envelope codec: the wire format between client and server.
//!
//! A payload is the text of one object whose members are strings, arrays of
//! strings, or the literals `null`, `true` and `false`.  An envelope carries
//! a `messageType` discriminant (`users`, `register` or `message`) and two
//! optional payload fields, `dataArray` and `data`.  The `data` field of a
//! `message` envelope is itself the text of a nested object with `from` and
//! `message` members.
//!
//! The grammar is a closed bilateral contract with the server, so the
//! decoder accepts exactly the shapes the protocol uses: nested objects,
//! numbers, and `\u` escapes at or above `0x80` are rejected as malformed.
//! Decoding is specified by the `spec_` parser functions below; the
//! executable decoder returns exactly what they describe.

use vstd::prelude::*;
use vstd::string::*;
use crate::strutil::{
    hex_lower, hex_val, is_hex_digit, push_char, spec_hex_lower, spec_hex_val, str_eq,
    strings_view,
};

verus! {

/// The three recognized envelope kinds.
#[derive(Debug, Clone, Copy, PartialEq, Eq, Structural)]
pub enum MsgTypes {
    Users,
    Register,
    Message,
}

/// Decode failures.  Both are recovered locally by the dispatcher: the
/// offending payload is dropped and the stream continues.
#[derive(Debug, Clone, Copy, PartialEq, Eq, Structural)]
pub enum DecodeError {
    /// The top-level payload is not a well-formed envelope.
    MalformedEnvelope,
    /// The nested `from`/`message` payload of a `message` envelope is not
    /// well formed.
    MalformedMessagePayload,
}

/// The wire unit: a kind discriminant and its two optional payload fields.
#[derive(Debug, Clone, PartialEq)]
pub struct Envelope {
    pub message_type: MsgTypes,
    pub data_array: Option<Vec<String>>,
    pub data: Option<String>,
}

/// Mathematical view of an [`Envelope`].
pub struct EnvelopeV {
    pub message_type: MsgTypes,
    pub data_array: Option<Seq<Seq<char>>>,
    pub data: Option<Seq<char>>,
}

impl View for Envelope {
    type V = EnvelopeV;

    open spec fn view(&self) -> EnvelopeV {
        EnvelopeV {
            message_type: self.message_type,
            data_array: match self.data_array {
                Option::Some(v) => Option::Some(strings_view(v@)),
                Option::None => Option::None,
            },
            data: match self.data {
                Option::Some(s) => Option::Some(s@),
                Option::None => Option::None,
            },
        }
    }
}

/// The nested payload of a `message` envelope, and at the same time one
/// history entry: sender name and message body.
#[derive(Debug, Clone, PartialEq)]
pub struct MessageData {
    pub from: String,
    pub message: String,
}

/// Mathematical view of a [`MessageData`].
pub struct MessageDataV {
    pub from: Seq<char>,
    pub message: Seq<char>,
}

impl View for MessageData {
    type V = MessageDataV;

    open spec fn view(&self) -> MessageDataV {
        MessageDataV { from: self.from@, message: self.message@ }
    }
}

/// One member value of a payload object.
pub enum JsonVal {
    Str(String),
    StrArr(Vec<String>),
    Null,
    Bool,
}

/// Mathematical view of a [`JsonVal`].
pub enum JsonValV {
    Str(Seq<char>),
    StrArr(Seq<Seq<char>>),
    Null,
    Bool,
}

impl View for JsonVal {
    type V = JsonValV;

    open spec fn view(&self) -> JsonValV {
        match self {
            JsonVal::Str(s) => JsonValV::Str(s@),
            JsonVal::StrArr(v) => JsonValV::StrArr(strings_view(v@)),
            JsonVal::Null => JsonValV::Null,
            JsonVal::Bool => JsonValV::Bool,
        }
    }
}

/// View of a member list as key/value character sequences.
pub open spec fn pairs_view(v: Seq<(String, JsonVal)>) -> Seq<(Seq<char>, JsonValV)> {
    v.map(|i: int, p: (String, JsonVal)| (p.0@, p.1@))
}

// ------------------------------------------------------------------
// The payload grammar, as specification-level parsers.  Each takes the
// payload text and a position and yields the position after the parsed
// form together with its meaning, or `None` when the text does not match.
// ------------------------------------------------------------------

/// Insignificant whitespace between tokens.
pub open spec fn is_json_ws(c: char) -> bool {
    c == ' ' || c == '\t' || c == '\n' || c == '\r'
}

/// First position at or after `i` holding no whitespace.
pub open spec fn spec_skip_ws(s: Seq<char>, i: int) -> int
    decreases s.len() - i,
{
    if 0 <= i < s.len() && is_json_ws(s[i]) {
        spec_skip_ws(s, i + 1)
    } else {
        i
    }
}

/// Replacement for a single-character escape, `None` when the character
/// may not follow a backslash.
pub open spec fn spec_simple_unescape(e: char) -> Option<char> {
    if e == '"' {
        Option::Some('"')
    } else if e == '\\' {
        Option::Some('\\')
    } else if e == '/' {
        Option::Some('/')
    } else if e == 'n' {
        Option::Some('\n')
    } else if e == 't' {
        Option::Some('\t')
    } else if e == 'r' {
        Option::Some('\r')
    } else if e == 'b' {
        Option::Some('\u{0008}')
    } else if e == 'f' {
        Option::Some('\u{000C}')
    } else {
        Option::None
    }
}

/// String body from `i` (just past the opening quote) up to and past the
/// closing quote, with escapes replaced.  Raw control characters, unknown
/// escapes and `\u` escapes at or above `0x80` do not parse.
pub open spec fn spec_parse_chars(s: Seq<char>, i: int) -> Option<(int, Seq<char>)>
    decreases s.len() - i,
{
    if i < 0 || i >= s.len() {
        Option::None
    } else if s[i] == '"' {
        Option::Some((i + 1, Seq::empty()))
    } else if s[i] == '\\' {
        if i + 2 <= s.len() {
            if s[i + 1] == 'u' {
                if i + 6 <= s.len() && is_hex_digit(s[i + 2]) && is_hex_digit(s[i + 3])
                    && is_hex_digit(s[i + 4]) && is_hex_digit(s[i + 5]) {
                    let code = spec_hex_val(s[i + 2]) * 4096 + spec_hex_val(s[i + 3]) * 256
                        + spec_hex_val(s[i + 4]) * 16 + spec_hex_val(s[i + 5]);
                    if code < 0x80 {
                        match spec_parse_chars(s, i + 6) {
                            Option::Some(p) => Option::Some(
                                (p.0, seq![(code as u8) as char] + p.1),
                            ),
                            Option::None => Option::None,
                        }
                    } else {
                        Option::None
                    }
                } else {
                    Option::None
                }
            } else {
                match spec_simple_unescape(s[i + 1]) {
                    Option::Some(u) => match spec_parse_chars(s, i + 2) {
                        Option::Some(p) => Option::Some((p.0, seq![u] + p.1)),
                        Option::None => Option::None,
                    },
                    Option::None => Option::None,
                }
            }
        } else {
            Option::None
        }
    } else if (s[i] as u32) < 0x20 {
        Option::None
    } else {
        match spec_parse_chars(s, i + 1) {
            Option::Some(p) => Option::Some((p.0, seq![s[i]] + p.1)),
            Option::None => Option::None,
        }
    }
}

/// A quoted string starting at `i`.
pub open spec fn spec_parse_string(s: Seq<char>, i: int) -> Option<(int, Seq<char>)> {
    if 0 <= i < s.len() && s[i] == '"' {
        spec_parse_chars(s, i + 1)
    } else {
        Option::None
    }
}

/// Continuation of a string array after one element: either the closing
/// bracket or a comma followed by the next string.
pub open spec fn spec_parse_more_strings(s: Seq<char>, i: int) -> Option<(int, Seq<Seq<char>>)>
    decreases s.len() - i,
    via spec_parse_more_strings_dec
{
    let j = spec_skip_ws(s, i);
    if 0 <= j < s.len() && s[j] == ']' {
        Option::Some((j + 1, Seq::empty()))
    } else if 0 <= j < s.len() && s[j] == ',' {
        let j2 = spec_skip_ws(s, j + 1);
        match spec_parse_string(s, j2) {
            Option::Some(p) => match spec_parse_more_strings(s, p.0) {
                Option::Some(q) => Option::Some((q.0, seq![p.1] + q.1)),
                Option::None => Option::None,
            },
            Option::None => Option::None,
        }
    } else {
        Option::None
    }
}

/// An array of strings starting at `i`.
pub open spec fn spec_parse_array(s: Seq<char>, i: int) -> Option<(int, Seq<Seq<char>>)> {
    if 0 <= i < s.len() && s[i] == '[' {
        let j = spec_skip_ws(s, i + 1);
        if 0 <= j < s.len() && s[j] == ']' {
            Option::Some((j + 1, Seq::empty()))
        } else {
            match spec_parse_string(s, j) {
                Option::Some(p) => match spec_parse_more_strings(s, p.0) {
                    Option::Some(q) => Option::Some((q.0, seq![p.1] + q.1)),
                    Option::None => Option::None,
                },
                Option::None => Option::None,
            }
        }
    } else {
        Option::None
    }
}

/// A member value: a string, an array of strings, or one of the literals
/// `null`, `true` and `false`.
pub open spec fn spec_parse_value(s: Seq<char>, i: int) -> Option<(int, JsonValV)> {
    if 0 <= i < s.len() {
        if s[i] == '"' {
            match spec_parse_string(s, i) {
                Option::Some(p) => Option::Some((p.0, JsonValV::Str(p.1))),
                Option::None => Option::None,
            }
        } else if s[i] == '[' {
            match spec_parse_array(s, i) {
                Option::Some(p) => Option::Some((p.0, JsonValV::StrArr(p.1))),
                Option::None => Option::None,
            }
        } else if s[i] == 'n' {
            if i + 4 <= s.len() && s[i + 1] == 'u' && s[i + 2] == 'l' && s[i + 3] == 'l' {
                Option::Some((i + 4, JsonValV::Null))
            } else {
                Option::None
            }
        } else if s[i] == 't' {
            if i + 4 <= s.len() && s[i + 1] == 'r' && s[i + 2] == 'u' && s[i + 3] == 'e' {
                Option::Some((i + 4, JsonValV::Bool))
            } else {
                Option::None
            }
        } else if s[i] == 'f' {
            if i + 5 <= s.len() && s[i + 1] == 'a' && s[i + 2] == 'l' && s[i + 3] == 's' && s[i + 4]
                == 'e' {
                Option::Some((i + 5, JsonValV::Bool))
            } else {
                Option::None
            }
        } else {
            Option::None
        }
    } else {
        Option::None
    }
}

/// One `"key": value` member starting at `i`.
pub open spec fn spec_parse_member(s: Seq<char>, i: int) -> Option<(int, (Seq<char>, JsonValV))> {
    match spec_parse_string(s, i) {
        Option::Some(p) => {
            let j = spec_skip_ws(s, p.0);
            if 0 <= j < s.len() && s[j] == ':' {
                let j2 = spec_skip_ws(s, j + 1);
                match spec_parse_value(s, j2) {
                    Option::Some(q) => Option::Some((q.0, (p.1, q.1))),
                    Option::None => Option::None,
                }
            } else {
                Option::None
            }
        },
        Option::None => Option::None,
    }
}

/// Continuation of a member list after one member: either the closing
/// brace or a comma followed by the next member.
pub open spec fn spec_parse_more_members(s: Seq<char>, i: int) -> Option<
    (int, Seq<(Seq<char>, JsonValV)>),
>
    decreases s.len() - i,
    via spec_parse_more_members_dec
{
    let j = spec_skip_ws(s, i);
    if 0 <= j < s.len() && s[j] == '}' {
        Option::Some((j + 1, Seq::empty()))
    } else if 0 <= j < s.len() && s[j] == ',' {
        let j2 = spec_skip_ws(s, j + 1);
        match spec_parse_member(s, j2) {
            Option::Some(p) => match spec_parse_more_members(s, p.0) {
                Option::Some(q) => Option::Some((q.0, seq![p.1] + q.1)),
                Option::None => Option::None,
            },
            Option::None => Option::None,
        }
    } else {
        Option::None
    }
}

/// The member list of an object, starting just past the opening brace and
/// ending past the closing brace.
pub open spec fn spec_parse_members(s: Seq<char>, i: int) -> Option<
    (int, Seq<(Seq<char>, JsonValV)>),
> {
    let j = spec_skip_ws(s, i);
    if 0 <= j < s.len() && s[j] == '}' {
        Option::Some((j + 1, Seq::empty()))
    } else {
        match spec_parse_member(s, j) {
            Option::Some(p) => match spec_parse_more_members(s, p.0) {
                Option::Some(q) => Option::Some((q.0, seq![p.1] + q.1)),
                Option::None => Option::None,
            },
            Option::None => Option::None,
        }
    }
}

// ------------------------------------------------------------------
// Position bounds of the specification parsers, needed for termination
// of the recursive ones and useful to their callers.
// ------------------------------------------------------------------

pub proof fn lemma_skip_ws_bounds(s: Seq<char>, i: int)
    ensures
        i <= spec_skip_ws(s, i),
        i <= s.len() ==> spec_skip_ws(s, i) <= s.len(),
    decreases s.len() - i,
{
    if 0 <= i < s.len() && is_json_ws(s[i]) {
        lemma_skip_ws_bounds(s, i + 1);
    }
}

pub proof fn lemma_parse_chars_bounds(s: Seq<char>, i: int)
    ensures
        spec_parse_chars(s, i) matches Option::Some(p) ==> i < p.0 <= s.len(),
    decreases s.len() - i,
{
    if 0 <= i < s.len() {
        if s[i] == '"' {
        } else if s[i] == '\\' {
            if i + 2 <= s.len() {
                if s[i + 1] == 'u' {
                    if i + 6 <= s.len() {
                        lemma_parse_chars_bounds(s, i + 6);
                    }
                } else {
                    lemma_parse_chars_bounds(s, i + 2);
                }
            }
        } else {
            lemma_parse_chars_bounds(s, i + 1);
        }
    }
}

pub proof fn lemma_parse_string_bounds(s: Seq<char>, i: int)
    ensures
        spec_parse_string(s, i) matches Option::Some(p) ==> i < p.0 <= s.len(),
{
    if 0 <= i < s.len() && s[i] == '"' {
        lemma_parse_chars_bounds(s, i + 1);
    }
}

#[via_fn]
proof fn spec_parse_more_strings_dec(s: Seq<char>, i: int) {
    let j = spec_skip_ws(s, i);
    lemma_skip_ws_bounds(s, i);
    if 0 <= j < s.len() && s[j] == ',' {
        let j2 = spec_skip_ws(s, j + 1);
        lemma_skip_ws_bounds(s, j + 1);
        lemma_parse_string_bounds(s, j2);
    }
}

pub proof fn lemma_parse_more_strings_bounds(s: Seq<char>, i: int)
    ensures
        spec_parse_more_strings(s, i) matches Option::Some(p) ==> i < p.0 <= s.len(),
    decreases s.len() - i,
{
    let j = spec_skip_ws(s, i);
    lemma_skip_ws_bounds(s, i);
    if 0 <= j < s.len() && s[j] == ']' {
    } else if 0 <= j < s.len() && s[j] == ',' {
        let j2 = spec_skip_ws(s, j + 1);
        lemma_skip_ws_bounds(s, j + 1);
        lemma_parse_string_bounds(s, j2);
        match spec_parse_string(s, j2) {
            Option::Some(p) => lemma_parse_more_strings_bounds(s, p.0),
            Option::None => {},
        }
    }
}

pub proof fn lemma_parse_array_bounds(s: Seq<char>, i: int)
    ensures
        spec_parse_array(s, i) matches Option::Some(p) ==> i < p.0 <= s.len(),
{
    if 0 <= i < s.len() && s[i] == '[' {
        let j = spec_skip_ws(s, i + 1);
        lemma_skip_ws_bounds(s, i + 1);
        lemma_parse_string_bounds(s, j);
        match spec_parse_string(s, j) {
            Option::Some(p) => lemma_parse_more_strings_bounds(s, p.0),
            Option::None => {},
        }
    }
}

pub proof fn lemma_parse_value_bounds(s: Seq<char>, i: int)
    ensures
        spec_parse_value(s, i) matches Option::Some(p) ==> i < p.0 <= s.len(),
{
    if 0 <= i < s.len() {
        lemma_parse_string_bounds(s, i);
        lemma_parse_array_bounds(s, i);
    }
}

pub proof fn lemma_parse_member_bounds(s: Seq<char>, i: int)
    ensures
        spec_parse_member(s, i) matches Option::Some(p) ==> i < p.0 <= s.len(),
{
    lemma_parse_string_bounds(s, i);
    match spec_parse_string(s, i) {
        Option::Some(p) => {
            let j = spec_skip_ws(s, p.0);
            lemma_skip_ws_bounds(s, p.0);
            if 0 <= j < s.len() && s[j] == ':' {
                let j2 = spec_skip_ws(s, j + 1);
                lemma_skip_ws_bounds(s, j + 1);
                lemma_parse_value_bounds(s, j2);
            }
        },
        Option::None => {},
    }
}

#[via_fn]
proof fn spec_parse_more_members_dec(s: Seq<char>, i: int) {
    let j = spec_skip_ws(s, i);
    lemma_skip_ws_bounds(s, i);
    if 0 <= j < s.len() && s[j] == ',' {
        let j2 = spec_skip_ws(s, j + 1);
        lemma_skip_ws_bounds(s, j + 1);
        lemma_parse_member_bounds(s, j2);
    }
}

// ------------------------------------------------------------------
// Executable parsers.  Each one mirrors its specification parser and
// returns exactly what it describes.  `n` is always the character length
// of `s`.
// ------------------------------------------------------------------

fn skip_ws(s: &str, n: usize, i: usize) -> (r: usize)
    requires
        n as int == s@.len(),
        i <= n,
    ensures
        r as int == spec_skip_ws(s@, i as int),
        i <= r <= n,
    decreases n - i,
{
    if i < n {
        let c = s.get_char(i);
        if c == ' ' || c == '\t' || c == '\n' || c == '\r' {
            return skip_ws(s, n, i + 1);
        }
    }
    i
}

fn simple_unescape(e: char) -> (r: Option<char>)
    ensures
        r == spec_simple_unescape(e),
{
    if e == '"' {
        Some('"')
    } else if e == '\\' {
        Some('\\')
    } else if e == '/' {
        Some('/')
    } else if e == 'n' {
        Some('\n')
    } else if e == 't' {
        Some('\t')
    } else if e == 'r' {
        Some('\r')
    } else if e == 'b' {
        Some('\u{0008}')
    } else if e == 'f' {
        Some('\u{000C}')
    } else {
        None
    }
}

fn parse_chars(s: &str, n: usize, i: usize, out: &mut String) -> (r: Option<usize>)
    requires
        n as int == s@.len(),
        i <= n,
    ensures
        r is Some <==> spec_parse_chars(s@, i as int) is Some,
        r matches Some(j) ==> spec_parse_chars(s@, i as int) matches Some(p) && j as int == p.0
            && final(out)@ == old(out)@ + p.1 && i < j <= n,
    decreases n - i,
{
    if i >= n {
        return None;
    }
    let c = s.get_char(i);
    if c == '"' {
        proof {
            assert(out@ + Seq::<char>::empty() =~= out@);
        }
        Some(i + 1)
    } else if c == '\\' {
        if n - i < 2 {
            return None;
        }
        let e = s.get_char(i + 1);
        if e == 'u' {
            if n - i < 6 {
                return None;
            }
            let o1 = hex_val(s.get_char(i + 2));
            let o2 = hex_val(s.get_char(i + 3));
            let o3 = hex_val(s.get_char(i + 4));
            let o4 = hex_val(s.get_char(i + 5));
            if o1.is_none() || o2.is_none() || o3.is_none() || o4.is_none() {
                return None;
            }
            let code: u32 = o1.unwrap() * 4096 + o2.unwrap() * 256 + o3.unwrap() * 16
                + o4.unwrap();
            if code < 0x80 {
                let u = (code as u8) as char;
                push_char(out, u);
                match parse_chars(s, n, i + 6, out) {
                    Some(j) => {
                        proof {
                            let p = spec_parse_chars(s@, i as int + 6).unwrap();
                            assert(out@ =~= old(out)@ + (seq![u] + p.1));
                        }
                        Some(j)
                    },
                    None => None,
                }
            } else {
                None
            }
        } else {
            match simple_unescape(e) {
                Some(u) => {
                    push_char(out, u);
                    match parse_chars(s, n, i + 2, out) {
                        Some(j) => {
                            proof {
                                let p = spec_parse_chars(s@, i as int + 2).unwrap();
                                assert(out@ =~= old(out)@ + (seq![u] + p.1));
                            }
                            Some(j)
                        },
                        None => None,
                    }
                },
                None => None,
            }
        }
    } else if (c as u32) < 0x20 {
        None
    } else {
        push_char(out, c);
        match parse_chars(s, n, i + 1, out) {
            Some(j) => {
                proof {
                    let p = spec_parse_chars(s@, i as int + 1).unwrap();
                    assert(out@ =~= old(out)@ + (seq![c] + p.1));
                }
                Some(j)
            },
            None => None,
        }
    }
}

fn parse_string(s: &str, n: usize, i: usize) -> (r: Option<(usize, String)>)
    requires
        n as int == s@.len(),
        i <= n,
    ensures
        r is Some <==> spec_parse_string(s@, i as int) is Some,
        r matches Some(p) ==> spec_parse_string(s@, i as int) matches Some(q) && p.0 as int == q.0
            && p.1@ == q.1 && i < p.0 <= n,
{
    if i < n && s.get_char(i) == '"' {
        let mut out = String::new();
        match parse_chars(s, n, i + 1, &mut out) {
            Some(j) => {
                proof {
                    let q = spec_parse_chars(s@, i as int + 1).unwrap();
                    assert(Seq::<char>::empty() + q.1 =~= q.1);
                }
                Some((j, out))
            },
            None => None,
        }
    } else {
        None
    }
}

proof fn lemma_strings_view_push(v: Seq<String>, x: String)
    ensures
        strings_view(v.push(x)) == strings_view(v).push(x@),
{
    assert(strings_view(v.push(x)) =~= strings_view(v).push(x@));
}

fn parse_more_strings(s: &str, n: usize, i: usize, acc: &mut Vec<String>) -> (r: Option<usize>)
    requires
        n as int == s@.len(),
        i <= n,
    ensures
        r is Some <==> spec_parse_more_strings(s@, i as int) is Some,
        r matches Some(j) ==> spec_parse_more_strings(s@, i as int) matches Some(p) && j as int
            == p.0 && strings_view(final(acc)@) == strings_view(old(acc)@) + p.1 && i < j <= n,
    decreases n - i,
{
    let j = skip_ws(s, n, i);
    if j < n {
        let c = s.get_char(j);
        if c == ']' {
            proof {
                assert(strings_view(acc@) + Seq::<Seq<char>>::empty() =~= strings_view(acc@));
            }
            return Some(j + 1);
        }
        if c == ',' {
            let j2 = skip_ws(s, n, j + 1);
            match parse_string(s, n, j2) {
                Some(p) => {
                    let ghost x = p.1@;
                    let pos = p.0;
                    proof {
                        lemma_strings_view_push(acc@, p.1);
                    }
                    acc.push(p.1);
                    match parse_more_strings(s, n, pos, acc) {
                        Some(k) => {
                            proof {
                                let q = spec_parse_more_strings(s@, pos as int).unwrap();
                                assert(strings_view(acc@) =~= strings_view(old(acc)@) + (seq![x]
                                    + q.1));
                            }
                            Some(k)
                        },
                        None => None,
                    }
                },
                None => None,
            }
        } else {
            None
        }
    } else {
        None
    }
}

fn parse_array(s: &str, n: usize, i: usize) -> (r: Option<(usize, Vec<String>)>)
    requires
        n as int == s@.len(),
        i <= n,
    ensures
        r is Some <==> spec_parse_array(s@, i as int) is Some,
        r matches Some(p) ==> spec_parse_array(s@, i as int) matches Some(q) && p.0 as int == q.0
            && strings_view(p.1@) == q.1 && i < p.0 <= n,
{
    if i < n && s.get_char(i) == '[' {
        let j = skip_ws(s, n, i + 1);
        if j < n && s.get_char(j) == ']' {
            let out: Vec<String> = Vec::new();
            proof {
                assert(strings_view(out@) =~= Seq::<Seq<char>>::empty());
            }
            return Some((j + 1, out));
        }
        match parse_string(s, n, j) {
            Some(p) => {
                let mut acc: Vec<String> = Vec::new();
                let ghost x = p.1@;
                let pos = p.0;
                proof {
                    lemma_strings_view_push(acc@, p.1);
                }
                acc.push(p.1);
                match parse_more_strings(s, n, pos, &mut acc) {
                    Some(k) => {
                        proof {
                            let q = spec_parse_more_strings(s@, pos as int).unwrap();
                            assert(strings_view(acc@) =~= seq![x] + q.1);
                        }
                        Some((k, acc))
                    },
                    None => None,
                }
            },
            None => None,
        }
    } else {
        None
    }
}

fn parse_value(s: &str, n: usize, i: usize) -> (r: Option<(usize, JsonVal)>)
    requires
        n as int == s@.len(),
        i <= n,
    ensures
        r is Some <==> spec_parse_value(s@, i as int) is Some,
        r matches Some(p) ==> spec_parse_value(s@, i as int) matches Some(q) && p.0 as int == q.0
            && p.1@ == q.1 && i < p.0 <= n,
{
    if i >= n {
        return None;
    }
    let c = s.get_char(i);
    if c == '"' {
        match parse_string(s, n, i) {
            Some(p) => Some((p.0, JsonVal::Str(p.1))),
            None => None,
        }
    } else if c == '[' {
        match parse_array(s, n, i) {
            Some(p) => Some((p.0, JsonVal::StrArr(p.1))),
            None => None,
        }
    } else if c == 'n' {
        if n - i >= 4 && s.get_char(i + 1) == 'u' && s.get_char(i + 2) == 'l' && s.get_char(i + 3)
            == 'l' {
            Some((i + 4, JsonVal::Null))
        } else {
            None
        }
    } else if c == 't' {
        if n - i >= 4 && s.get_char(i + 1) == 'r' && s.get_char(i + 2) == 'u' && s.get_char(i + 3)
            == 'e' {
            Some((i + 4, JsonVal::Bool))
        } else {
            None
        }
    } else if c == 'f' {
        if n - i >= 5 && s.get_char(i + 1) == 'a' && s.get_char(i + 2) == 'l' && s.get_char(i + 3)
            == 's' && s.get_char(i + 4) == 'e' {
            Some((i + 5, JsonVal::Bool))
        } else {
            None
        }
    } else {
        None
    }
}

fn parse_member(s: &str, n: usize, i: usize) -> (r: Option<(usize, (String, JsonVal))>)
    requires
        n as int == s@.len(),
        i <= n,
    ensures
        r is Some <==> spec_parse_member(s@, i as int) is Some,
        r matches Some(p) ==> spec_parse_member(s@, i as int) matches Some(q) && p.0 as int == q.0
            && p.1.0@ == q.1.0 && p.1.1@ == q.1.1 && i < p.0 <= n,
{
    match parse_string(s, n, i) {
        Some(p) => {
            let j = skip_ws(s, n, p.0);
            if j < n && s.get_char(j) == ':' {
                let j2 = skip_ws(s, n, j + 1);
                match parse_value(s, n, j2) {
                    Some(q) => Some((q.0, (p.1, q.1))),
                    None => None,
                }
            } else {
                None
            }
        },
        None => None,
    }
}

proof fn lemma_pairs_view_push(v: Seq<(String, JsonVal)>, x: (String, JsonVal))
    ensures
        pairs_view(v.push(x)) == pairs_view(v).push((x.0@, x.1@)),
{
    assert(pairs_view(v.push(x)) =~= pairs_view(v).push((x.0@, x.1@)));
}

fn parse_more_members(s: &str, n: usize, i: usize, acc: &mut Vec<(String, JsonVal)>) -> (r:
    Option<usize>)
    requires
        n as int == s@.len(),
        i <= n,
    ensures
        r is Some <==> spec_parse_more_members(s@, i as int) is Some,
        r matches Some(j) ==> spec_parse_more_members(s@, i as int) matches Some(p) && j as int
            == p.0 && pairs_view(final(acc)@) == pairs_view(old(acc)@) + p.1 && i < j <= n,
    decreases n - i,
{
    let j = skip_ws(s, n, i);
    if j < n {
        let c = s.get_char(j);
        if c == '}' {
            proof {
                assert(pairs_view(acc@) + Seq::<(Seq<char>, JsonValV)>::empty() =~= pairs_view(
                    acc@,
                ));
            }
            return Some(j + 1);
        }
        if c == ',' {
            let j2 = skip_ws(s, n, j + 1);
            match parse_member(s, n, j2) {
                Some(p) => {
                    let ghost x = (p.1.0@, p.1.1@);
                    let pos = p.0;
                    proof {
                        lemma_pairs_view_push(acc@, p.1);
                    }
                    acc.push(p.1);
                    match parse_more_members(s, n, pos, acc) {
                        Some(k) => {
                            proof {
                                let q = spec_parse_more_members(s@, pos as int).unwrap();
                                assert(pairs_view(acc@) =~= pairs_view(old(acc)@) + (seq![x]
                                    + q.1));
                            }
                            Some(k)
                        },
                        None => None,
                    }
                },
                None => None,
            }
        } else {
            None
        }
    } else {
        None
    }
}

fn parse_members(s: &str, n: usize, i: usize) -> (r: Option<(usize, Vec<(String, JsonVal)>)>)
    requires
        n as int == s@.len(),
        i <= n,
    ensures
        r is Some <==> spec_parse_members(s@, i as int) is Some,
        r matches Some(p) ==> spec_parse_members(s@, i as int) matches Some(q) && p.0 as int == q.0
            && pairs_view(p.1@) == q.1 && p.0 <= n,
{
    let j = skip_ws(s, n, i);
    if j < n && s.get_char(j) == '}' {
        let out: Vec<(String, JsonVal)> = Vec::new();
        proof {
            assert(pairs_view(out@) =~= Seq::<(Seq<char>, JsonValV)>::empty());
        }
        return Some((j + 1, out));
    }
    match parse_member(s, n, j) {
        Some(p) => {
            let mut acc: Vec<(String, JsonVal)> = Vec::new();
            let ghost x = (p.1.0@, p.1.1@);
            let pos = p.0;
            proof {
                lemma_pairs_view_push(acc@, p.1);
            }
            acc.push(p.1);
            match parse_more_members(s, n, pos, &mut acc) {
                Some(k) => {
                    proof {
                        let q = spec_parse_more_members(s@, pos as int).unwrap();
                        assert(pairs_view(acc@) =~= seq![x] + q.1);
                    }
                    Some((k, acc))
                },
                None => None,
            }
        },
        None => None,
    }
}

// ------------------------------------------------------------------
// Interpretation of a parsed member list as an envelope or as the nested
// message payload.  When a key occurs more than once the last occurrence
// wins.
// ------------------------------------------------------------------

/// Value of the last member with the given key, `None` when no member has
/// that key.
pub open spec fn spec_last_val(ps: Seq<(Seq<char>, JsonValV)>, key: Seq<char>) -> Option<JsonValV>
    decreases ps.len(),
{
    if ps.len() == 0 {
        Option::None
    } else if ps.last().0 == key {
        Option::Some(ps.last().1)
    } else {
        spec_last_val(ps.drop_last(), key)
    }
}

/// The `dataArray` field of an envelope: absent or `null` mean no array,
/// and anything but an array of strings is malformed.
pub open spec fn spec_field_array(ps: Seq<(Seq<char>, JsonValV)>) -> Result<
    Option<Seq<Seq<char>>>,
    DecodeError,
> {
    match spec_last_val(ps, "dataArray"@) {
        Option::None => Result::Ok(Option::None),
        Option::Some(JsonValV::StrArr(a)) => Result::Ok(Option::Some(a)),
        Option::Some(JsonValV::Null) => Result::Ok(Option::None),
        Option::Some(_) => Result::Err(DecodeError::MalformedEnvelope),
    }
}

/// The `data` field of an envelope: absent or `null` mean no data, and
/// anything but a string is malformed.
pub open spec fn spec_field_data(ps: Seq<(Seq<char>, JsonValV)>) -> Result<
    Option<Seq<char>>,
    DecodeError,
> {
    match spec_last_val(ps, "data"@) {
        Option::None => Result::Ok(Option::None),
        Option::Some(JsonValV::Str(d)) => Result::Ok(Option::Some(d)),
        Option::Some(JsonValV::Null) => Result::Ok(Option::None),
        Option::Some(_) => Result::Err(DecodeError::MalformedEnvelope),
    }
}

/// Envelope meaning of a member list: a missing or non-string
/// `messageType` is malformed; a string `messageType` other than the three
/// recognized kinds yields `Ok(None)`, an envelope to be ignored.
pub open spec fn spec_interp_envelope(ps: Seq<(Seq<char>, JsonValV)>) -> Result<
    Option<EnvelopeV>,
    DecodeError,
> {
    match spec_last_val(ps, "messageType"@) {
        Option::Some(JsonValV::Str(t)) => {
            if t == "users"@ || t == "register"@ || t == "message"@ {
                let mt = if t == "users"@ {
                    MsgTypes::Users
                } else if t == "register"@ {
                    MsgTypes::Register
                } else {
                    MsgTypes::Message
                };
                match (spec_field_array(ps), spec_field_data(ps)) {
                    (Result::Ok(da), Result::Ok(d)) => Result::Ok(
                        Option::Some(EnvelopeV { message_type: mt, data_array: da, data: d }),
                    ),
                    _ => Result::Err(DecodeError::MalformedEnvelope),
                }
            } else {
                Result::Ok(Option::None)
            }
        },
        _ => Result::Err(DecodeError::MalformedEnvelope),
    }
}

/// Meaning of a member list as the nested `message` payload: both `from`
/// and `message` must be present as strings.
pub open spec fn spec_interp_message(ps: Seq<(Seq<char>, JsonValV)>) -> Result<
    MessageDataV,
    DecodeError,
> {
    match (spec_last_val(ps, "from"@), spec_last_val(ps, "message"@)) {
        (Option::Some(JsonValV::Str(f)), Option::Some(JsonValV::Str(m))) => Result::Ok(
            MessageDataV { from: f, message: m },
        ),
        _ => Result::Err(DecodeError::MalformedMessagePayload),
    }
}

/// What decoding a payload yields: the envelope of the one object the text
/// holds, `Ok(None)` for a recognized object with an unrecognized kind, or
/// `MalformedEnvelope`.
pub open spec fn spec_decode_envelope(s: Seq<char>) -> Result<Option<EnvelopeV>, DecodeError> {
    let i = spec_skip_ws(s, 0);
    if 0 <= i < s.len() && s[i] == '{' {
        match spec_parse_members(s, i + 1) {
            Option::Some(p) => if spec_skip_ws(s, p.0) == s.len() {
                spec_interp_envelope(p.1)
            } else {
                Result::Err(DecodeError::MalformedEnvelope)
            },
            Option::None => Result::Err(DecodeError::MalformedEnvelope),
        }
    } else {
        Result::Err(DecodeError::MalformedEnvelope)
    }
}

/// What decoding the nested `message` payload yields.
pub open spec fn spec_decode_message_data(s: Seq<char>) -> Result<MessageDataV, DecodeError> {
    let i = spec_skip_ws(s, 0);
    if 0 <= i < s.len() && s[i] == '{' {
        match spec_parse_members(s, i + 1) {
            Option::Some(p) => if spec_skip_ws(s, p.0) == s.len() {
                spec_interp_message(p.1)
            } else {
                Result::Err(DecodeError::MalformedMessagePayload)
            },
            Option::None => Result::Err(DecodeError::MalformedMessagePayload),
        }
    } else {
        Result::Err(DecodeError::MalformedMessagePayload)
    }
}

/// View of a decode result, for stating [`decode_envelope`]'s contract.
pub open spec fn env_result_view(r: Result<Option<Envelope>, DecodeError>) -> Result<
    Option<EnvelopeV>,
    DecodeError,
> {
    match r {
        Result::Ok(Option::Some(e)) => Result::Ok(Option::Some(e@)),
        Result::Ok(Option::None) => Result::Ok(Option::None),
        Result::Err(e) => Result::Err(e),
    }
}

/// View of a nested decode result, for stating
/// [`decode_message_data`]'s contract.
pub open spec fn md_result_view(r: Result<MessageData, DecodeError>) -> Result<
    MessageDataV,
    DecodeError,
> {
    match r {
        Result::Ok(m) => Result::Ok(m@),
        Result::Err(e) => Result::Err(e),
    }
}

fn find_last(pairs: &Vec<(String, JsonVal)>, upto: usize, key: &str) -> (r: Option<usize>)
    requires
        upto <= pairs@.len(),
    ensures
        r is Some <==> spec_last_val(pairs_view(pairs@).take(upto as int), key@) is Some,
        r matches Some(k) ==> spec_last_val(pairs_view(pairs@).take(upto as int), key@)
            matches Some(v) && k < upto && pairs@[k as int].1@ == v,
    decreases upto,
{
    if upto == 0 {
        None
    } else {
        let k = upto - 1;
        proof {
            let pv = pairs_view(pairs@).take(upto as int);
            assert(pv.last() == (pairs@[k as int].0@, pairs@[k as int].1@));
            assert(pv.drop_last() =~= pairs_view(pairs@).take(k as int));
        }
        if str_eq(pairs[k].0.as_str(), key) {
            Some(k)
        } else {
            find_last(pairs, k, key)
        }
    }
}

fn clone_strings(v: &Vec<String>) -> (r: Vec<String>)
    ensures
        strings_view(r@) == strings_view(v@),
{
    let mut out: Vec<String> = Vec::new();
    let mut i: usize = 0;
    proof {
        assert(strings_view(out@) =~= strings_view(v@).take(0));
    }
    while i < v.len()
        invariant
            i <= v@.len(),
            strings_view(out@) == strings_view(v@).take(i as int),
        decreases v@.len() - i,
    {
        let c = v[i].clone();
        proof {
            lemma_strings_view_push(out@, c);
            assert(strings_view(v@).take(i as int + 1) =~= strings_view(v@).take(i as int).push(
                v@[i as int]@,
            ));
        }
        out.push(c);
        i += 1;
    }
    proof {
        assert(strings_view(v@).take(v@.len() as int) =~= strings_view(v@));
    }
    out
}

fn interp_envelope(pairs: &Vec<(String, JsonVal)>) -> (r: Result<Option<Envelope>, DecodeError>)
    ensures
        env_result_view(r) == spec_interp_envelope(pairs_view(pairs@)),
{
    proof {
        assert(pairs_view(pairs@).take(pairs@.len() as int) =~= pairs_view(pairs@));
    }
    match find_last(pairs, pairs.len(), "messageType") {
        None => Err(DecodeError::MalformedEnvelope),
        Some(k) => {
            match &pairs[k].1 {
                JsonVal::Str(t) => {
                    let is_users = str_eq(t.as_str(), "users");
                    let is_register = str_eq(t.as_str(), "register");
                    let is_message = str_eq(t.as_str(), "message");
                    if is_users || is_register || is_message {
                        let mt = if is_users {
                            MsgTypes::Users
                        } else if is_register {
                            MsgTypes::Register
                        } else {
                            MsgTypes::Message
                        };
                        let data_array: Option<Vec<String>>;
                        match find_last(pairs, pairs.len(), "dataArray") {
                            None => {
                                data_array = None;
                            },
                            Some(k2) => {
                                match &pairs[k2].1 {
                                    JsonVal::StrArr(a) => {
                                        data_array = Some(clone_strings(a));
                                    },
                                    JsonVal::Null => {
                                        data_array = None;
                                    },
                                    _ => {
                                        return Err(DecodeError::MalformedEnvelope);
                                    },
                                }
                            },
                        }
                        let data: Option<String>;
                        match find_last(pairs, pairs.len(), "data") {
                            None => {
                                data = None;
                            },
                            Some(k3) => {
                                match &pairs[k3].1 {
                                    JsonVal::Str(d) => {
                                        data = Some(d.clone());
                                    },
                                    JsonVal::Null => {
                                        data = None;
                                    },
                                    _ => {
                                        return Err(DecodeError::MalformedEnvelope);
                                    },
                                }
                            },
                        }
                        Ok(Some(Envelope { message_type: mt, data_array, data }))
                    } else {
                        Ok(None)
                    }
                },
                _ => Err(DecodeError::MalformedEnvelope),
            }
        },
    }
}

fn interp_message(pairs: &Vec<(String, JsonVal)>) -> (r: Result<MessageData, DecodeError>)
    ensures
        md_result_view(r) == spec_interp_message(pairs_view(pairs@)),
{
    proof {
        assert(pairs_view(pairs@).take(pairs@.len() as int) =~= pairs_view(pairs@));
    }
    let from: String;
    match find_last(pairs, pairs.len(), "from") {
        Some(k) => {
            match &pairs[k].1 {
                JsonVal::Str(t) => {
                    from = t.clone();
                },
                _ => {
                    return Err(DecodeError::MalformedMessagePayload);
                },
            }
        },
        None => {
            return Err(DecodeError::MalformedMessagePayload);
        },
    }
    match find_last(pairs, pairs.len(), "message") {
        Some(k) => {
            match &pairs[k].1 {
                JsonVal::Str(t) => Ok(MessageData { from, message: t.clone() }),
                _ => Err(DecodeError::MalformedMessagePayload),
            }
        },
        None => Err(DecodeError::MalformedMessagePayload),
    }
}

/// Decodes one inbound payload.  Returns the envelope it carries,
/// `Ok(None)` for a well-formed object whose `messageType` is a string
/// other than the three recognized kinds (to be ignored), and
/// `Err(MalformedEnvelope)` exactly when the text does not match the
/// payload grammar or lacks a string `messageType`.
pub fn decode_envelope(text: &str) -> (r: Result<Option<Envelope>, DecodeError>)
    ensures
        env_result_view(r) == spec_decode_envelope(text@),
{
    let n = text.unicode_len();
    let i = skip_ws(text, n, 0);
    if i < n && text.get_char(i) == '{' {
        match parse_members(text, n, i + 1) {
            Some(p) => {
                let j = skip_ws(text, n, p.0);
                if j == n {
                    interp_envelope(&p.1)
                } else {
                    Err(DecodeError::MalformedEnvelope)
                }
            },
            None => Err(DecodeError::MalformedEnvelope),
        }
    } else {
        Err(DecodeError::MalformedEnvelope)
    }
}

/// Decodes the nested `from`/`message` payload carried by the `data`
/// field of a `message` envelope.  Returns `Err(MalformedMessagePayload)`
/// exactly when the text does not match the grammar or lacks string
/// `from` and `message` members.
pub fn decode_message_data(text: &str) -> (r: Result<MessageData, DecodeError>)
    ensures
        md_result_view(r) == spec_decode_message_data(text@),
{
    let n = text.unicode_len();
    let i = skip_ws(text, n, 0);
    if i < n && text.get_char(i) == '{' {
        match parse_members(text, n, i + 1) {
            Some(p) => {
                let j = skip_ws(text, n, p.0);
                if j == n {
                    interp_message(&p.1)
                } else {
                    Err(DecodeError::MalformedMessagePayload)
                }
            },
            None => Err(DecodeError::MalformedMessagePayload),
        }
    } else {
        Err(DecodeError::MalformedMessagePayload)
    }
}

// ------------------------------------------------------------------
// Encoding.  The encoder emits the canonical serialized form: members in
// the fixed order `messageType`, `dataArray`, `data`, absent fields
// omitted, and the two-character escapes (plus `\u00` for the remaining
// control characters) inside strings.
// ------------------------------------------------------------------

/// Serialized form of one character inside a quoted string.
pub open spec fn spec_escape_char(c: char) -> Seq<char> {
    if c == '"' {
        seq!['\\', '"']
    } else if c == '\\' {
        seq!['\\', '\\']
    } else if c == '\n' {
        seq!['\\', 'n']
    } else if c == '\r' {
        seq!['\\', 'r']
    } else if c == '\t' {
        seq!['\\', 't']
    } else if c == '\u{0008}' {
        seq!['\\', 'b']
    } else if c == '\u{000C}' {
        seq!['\\', 'f']
    } else if (c as u32) < 0x20 {
        seq!['\\', 'u', '0', '0', spec_hex_lower((c as u32) as int / 16), spec_hex_lower(
            (c as u32) as int % 16,
        )]
    } else {
        seq![c]
    }
}

/// Serialized form of a string body.
pub open spec fn spec_escape(s: Seq<char>) -> Seq<char>
    decreases s.len(),
{
    if s.len() == 0 {
        Seq::empty()
    } else {
        spec_escape_char(s[0]) + spec_escape(s.drop_first())
    }
}

/// A quoted, escaped string.
pub open spec fn spec_quote(s: Seq<char>) -> Seq<char> {
    seq!['"'] + spec_escape(s) + seq!['"']
}

/// Wire name of an envelope kind.
pub open spec fn spec_kind_str(mt: MsgTypes) -> Seq<char> {
    match mt {
        MsgTypes::Users => "users"@,
        MsgTypes::Register => "register"@,
        MsgTypes::Message => "message"@,
    }
}

/// Serialized tail of a string array from element `i` on: the closing
/// bracket, or a comma-separated quoted element and the rest.
pub open spec fn spec_encode_more(a: Seq<Seq<char>>, i: int) -> Seq<char>
    decreases a.len() - i,
{
    if i < 0 || i >= a.len() {
        seq![']']
    } else {
        seq![','] + spec_quote(a[i]) + spec_encode_more(a, i + 1)
    }
}

/// Serialized form of a string array.
pub open spec fn spec_encode_array(a: Seq<Seq<char>>) -> Seq<char> {
    if a.len() == 0 {
        "[]"@
    } else {
        seq!['['] + spec_quote(a[0]) + spec_encode_more(a, 1)
    }
}

/// Canonical serialized form of an envelope.
pub open spec fn spec_encode_envelope(e: EnvelopeV) -> Seq<char> {
    "{\"messageType\":"@ + spec_quote(spec_kind_str(e.message_type)) + (match e.data_array {
        Option::Some(a) => ",\"dataArray\":"@ + spec_encode_array(a),
        Option::None => Seq::empty(),
    }) + (match e.data {
        Option::Some(d) => ",\"data\":"@ + spec_quote(d),
        Option::None => Seq::empty(),
    }) + seq!['}']
}

fn push_escaped_char(out: &mut String, c: char)
    ensures
        final(out)@ == old(out)@ + spec_escape_char(c),
{
    if c == '"' {
        push_char(out, '\\');
        push_char(out, '"');
    } else if c == '\\' {
        push_char(out, '\\');
        push_char(out, '\\');
    } else if c == '\n' {
        push_char(out, '\\');
        push_char(out, 'n');
    } else if c == '\r' {
        push_char(out, '\\');
        push_char(out, 'r');
    } else if c == '\t' {
        push_char(out, '\\');
        push_char(out, 't');
    } else if c == '\u{0008}' {
        push_char(out, '\\');
        push_char(out, 'b');
    } else if c == '\u{000C}' {
        push_char(out, '\\');
        push_char(out, 'f');
    } else if (c as u32) < 0x20 {
        let u = c as u32;
        push_char(out, '\\');
        push_char(out, 'u');
        push_char(out, '0');
        push_char(out, '0');
        push_char(out, hex_lower(u / 16));
        push_char(out, hex_lower(u % 16));
    } else {
        push_char(out, c);
    }
    proof {
        assert(out@ =~= old(out)@ + spec_escape_char(c));
    }
}

fn append_escaped(out: &mut String, s: &str, n: usize, i: usize)
    requires
        n as int == s@.len(),
        i <= n,
    ensures
        final(out)@ == old(out)@ + spec_escape(s@.skip(i as int)),
    decreases n - i,
{
    if i < n {
        let c = s.get_char(i);
        push_escaped_char(out, c);
        append_escaped(out, s, n, i + 1);
        proof {
            assert(s@.skip(i as int).drop_first() =~= s@.skip(i as int + 1));
            assert(s@.skip(i as int)[0] == s@[i as int]);
            assert(old(out)@ + spec_escape_char(c) + spec_escape(s@.skip(i as int + 1)) =~= old(
                out,
            )@ + spec_escape(s@.skip(i as int)));
        }
    } else {
        proof {
            assert(s@.skip(i as int) =~= Seq::<char>::empty());
            assert(old(out)@ + spec_escape(s@.skip(i as int)) =~= old(out)@);
        }
    }
}

fn append_quoted(out: &mut String, s: &str)
    ensures
        final(out)@ == old(out)@ + spec_quote(s@),
{
    push_char(out, '"');
    let n = s.unicode_len();
    append_escaped(out, s, n, 0);
    push_char(out, '"');
    proof {
        assert(s@.skip(0) =~= s@);
        assert(out@ =~= old(out)@ + spec_quote(s@));
    }
}

fn kind_str(mt: MsgTypes) -> (r: &'static str)
    ensures
        r@ == spec_kind_str(mt),
{
    match mt {
        MsgTypes::Users => "users",
        MsgTypes::Register => "register",
        MsgTypes::Message => "message",
    }
}

fn append_array_more(out: &mut String, a: &Vec<String>, i: usize)
    requires
        i <= a@.len(),
    ensures
        final(out)@ == old(out)@ + spec_encode_more(strings_view(a@), i as int),
    decreases a@.len() - i,
{
    if i < a.len() {
        push_char(out, ',');
        append_quoted(out, a[i].as_str());
        append_array_more(out, a, i + 1);
        proof {
            assert(strings_view(a@)[i as int] == a@[i as int]@);
            assert(old(out)@ + seq![','] + spec_quote(a@[i as int]@) + spec_encode_more(
                strings_view(a@),
                i as int + 1,
            ) =~= old(out)@ + spec_encode_more(strings_view(a@), i as int));
        }
    } else {
        push_char(out, ']');
        proof {
            assert(old(out)@.push(']') =~= old(out)@ + spec_encode_more(
                strings_view(a@),
                i as int,
            ));
        }
    }
}

fn append_array(out: &mut String, a: &Vec<String>)
    ensures
        final(out)@ == old(out)@ + spec_encode_array(strings_view(a@)),
{
    if a.len() == 0 {
        out.append("[]");
    } else {
        push_char(out, '[');
        append_quoted(out, a[0].as_str());
        append_array_more(out, a, 1);
        proof {
            assert(strings_view(a@)[0] == a@[0]@);
            assert(old(out)@ + seq!['['] + spec_quote(a@[0]@) + spec_encode_more(
                strings_view(a@),
                1,
            ) =~= old(out)@ + spec_encode_array(strings_view(a@)));
        }
    }
}

/// Encodes an envelope into its canonical serialized form.
pub fn encode_envelope(e: &Envelope) -> (r: String)
    ensures
        r@ == spec_encode_envelope(e@),
{
    let mut out = String::from_str("{\"messageType\":");
    append_quoted(&mut out, kind_str(e.message_type));
    let ghost head = "{\"messageType\":"@ + spec_quote(spec_kind_str(e@.message_type));
    match &e.data_array {
        Some(a) => {
            out.append(",\"dataArray\":");
            append_array(&mut out, a);
        },
        None => {},
    }
    let ghost mid = head + (match e@.data_array {
        Option::Some(a) => ",\"dataArray\":"@ + spec_encode_array(a),
        Option::None => Seq::<char>::empty(),
    });
    proof {
        assert(out@ =~= mid);
    }
    match &e.data {
        Some(d) => {
            out.append(",\"data\":");
            append_quoted(&mut out, d.as_str());
        },
        None => {},
    }
    let ghost tail = mid + (match e@.data {
        Option::Some(d) => ",\"data\":"@ + spec_quote(d),
        Option::None => Seq::<char>::empty(),
    });
    proof {
        assert(out@ =~= tail);
    }
    push_char(&mut out, '}');
    proof {
        assert(out@ =~= spec_encode_envelope(e@));
    }
    out
}

} // verus!
