//! JSON text for the bodies this service writes.
use vstd::prelude::*;
use vstd::utf8::encode_utf8;
use crate::bytes::append_bytes;
use crate::hex::nibble_char;

verus! {

/// The longest text, in bytes, that the JSON writers take.
pub const MAX_TEXT_LEN: usize = 4096;

/// The most bytes that one JSON string literal of at most `MAX_TEXT_LEN` bytes of text takes.
pub const MAX_LITERAL_LEN: usize = 6 * MAX_TEXT_LEN + 2;

/// How one byte of UTF-8 text stands inside a JSON string literal.
pub open spec fn escape_byte(b: u8) -> Seq<u8> {
    if b == 34 {
        seq![92u8, 34u8]
    } else if b == 92 {
        seq![92u8, 92u8]
    } else if b < 32 {
        seq![92u8, 117u8, 48u8, 48u8, nibble_char(b / 16), nibble_char(b % 16)]
    } else {
        seq![b]
    }
}

/// UTF-8 text with quotes, backslashes and control bytes escaped.
pub open spec fn escaped(s: Seq<u8>) -> Seq<u8>
    decreases s.len(),
{
    if s.len() == 0 {
        Seq::empty()
    } else {
        escaped(s.drop_last()) + escape_byte(s.last())
    }
}

/// A JSON string literal holding `s`.
pub open spec fn json_string(s: Seq<char>) -> Seq<u8> {
    seq![34u8] + escaped(encode_utf8(s)) + seq![34u8]
}

/// A JSON string literal holding `s`, or `null`.
pub open spec fn json_opt_string(s: Option<Seq<char>>) -> Seq<u8> {
    match s {
        Some(v) => json_string(v),
        None => seq![110u8, 117u8, 108u8, 108u8],
    }
}

proof fn lemma_escaped_len(s: Seq<u8>)
    ensures
        escaped(s).len() <= 6 * s.len(),
    decreases s.len(),
{
    if s.len() > 0 {
        lemma_escaped_len(s.drop_last());
    }
}

fn nibble(n: u8) -> (r: u8)
    requires
        n < 16,
    ensures
        r == nibble_char(n),
{
    if n < 10 {
        48 + n
    } else {
        87 + n
    }
}

/// Appends `s` to `out` as a JSON string literal.
pub fn push_json_string(out: &mut Vec<u8>, s: &str)
    requires
        encode_utf8(s@).len() <= MAX_TEXT_LEN,
        old(out)@.len() <= usize::MAX - MAX_LITERAL_LEN,
    ensures
        final(out)@ == old(out)@ + json_string(s@),
        final(out)@.len() <= old(out)@.len() + MAX_LITERAL_LEN,
{
    let b = s.as_bytes();
    let ghost start = out@;
    out.push(34);
    let mut i: usize = 0;
    while i < b.len()
        invariant
            b@ == encode_utf8(s@),
            b@.len() <= MAX_TEXT_LEN,
            i <= b@.len(),
            start.len() <= usize::MAX - MAX_LITERAL_LEN,
            out@ == start + seq![34u8] + escaped(b@.subrange(0, i as int)),
        decreases b@.len() - i,
    {
        proof {
            lemma_escaped_len(b@.subrange(0, i as int));
        }
        let c = b[i];
        if c == 34 {
            out.push(92);
            out.push(34);
        } else if c == 92 {
            out.push(92);
            out.push(92);
        } else if c < 32 {
            out.push(92);
            out.push(117);
            out.push(48);
            out.push(48);
            out.push(nibble(c / 16));
            out.push(nibble(c % 16));
        } else {
            out.push(c);
        }
        assert(b@.subrange(0, i + 1).drop_last() =~= b@.subrange(0, i as int));
        i = i + 1;
    }
    assert(b@.subrange(0, i as int) =~= b@);
    proof {
        lemma_escaped_len(b@);
    }
    out.push(34);
}

/// Appends `s` to `out` as a JSON string literal, or `null` for `None`.
pub fn push_json_opt_string(out: &mut Vec<u8>, s: &Option<String>)
    requires
        s matches Some(v) ==> encode_utf8(v@).len() <= MAX_TEXT_LEN,
        old(out)@.len() <= usize::MAX - MAX_LITERAL_LEN,
    ensures
        final(out)@ == old(out)@ + json_opt_string(opt_view(s)),
        final(out)@.len() <= old(out)@.len() + MAX_LITERAL_LEN,
{
    match s {
        Some(v) => push_json_string(out, v.as_str()),
        None => {
            out.push(110);
            out.push(117);
            out.push(108);
            out.push(108);
        },
    }
}

/// The characters of an optional string.
pub open spec fn opt_view(s: &Option<String>) -> Option<Seq<char>> {
    match s {
        Some(v) => Some(v@),
        None => None,
    }
}

/// The bytes of ASCII text.
pub open spec fn ascii_bytes(s: Seq<char>) -> Seq<u8> {
    Seq::new(s.len(), |i: int| s[i] as u8)
}

/// Appends a short piece of ASCII text to `out`.
pub fn push_ascii(out: &mut Vec<u8>, s: &str)
    requires
        vstd::string::is_ascii(s),
        s@.len() <= 64,
        old(out)@.len() <= usize::MAX - 64,
    ensures
        final(out)@ == old(out)@ + ascii_bytes(s@),
{
    proof {
        vstd::string::is_ascii_spec_bytes(s);
    }
    append_bytes(out, s.as_bytes());
}

} // verus!
