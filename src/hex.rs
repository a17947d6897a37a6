//! Lower-case hexadecimal text for byte strings, as used inside tokens.
use vstd::prelude::*;

verus! {

/// The ASCII digit for a value below sixteen.
pub open spec fn nibble_char(n: u8) -> u8 {
    if n < 10 {
        (48 + n) as u8
    } else {
        (87 + n) as u8
    }
}

/// Whether a byte is one of `0-9a-f`.
pub open spec fn is_hex_digit(c: u8) -> bool {
    (48 <= c && c <= 57) || (97 <= c && c <= 102)
}

/// The value of a hex digit.
pub open spec fn digit_value(c: u8) -> u8 {
    if c <= 57 {
        (c - 48) as u8
    } else {
        (c - 87) as u8
    }
}

/// Two lower-case hex digits per byte, high nibble first.
pub open spec fn hex_of(b: Seq<u8>) -> Seq<u8> {
    Seq::new(
        2 * b.len(),
        |i: int|
            if i % 2 == 0 {
                nibble_char(b[i / 2] / 16)
            } else {
                nibble_char(b[i / 2] % 16)
            },
    )
}

/// Text that `hex_of` can produce: an even number of lower-case hex digits.
pub open spec fn is_hex_text(s: Seq<u8>) -> bool {
    s.len() % 2 == 0 && forall|i: int| 0 <= i < s.len() ==> is_hex_digit(#[trigger] s[i])
}

/// The bytes that hex text stands for.
pub open spec fn bytes_of_hex(s: Seq<u8>) -> Seq<u8> {
    Seq::new(
        s.len() / 2,
        |i: int| (digit_value(s[2 * i]) * 16 + digit_value(s[2 * i + 1])) as u8,
    )
}

proof fn lemma_nibble(n: u8)
    requires
        n < 16,
    ensures
        is_hex_digit(nibble_char(n)),
        digit_value(nibble_char(n)) == n,
{
}

proof fn lemma_digit(c: u8)
    requires
        is_hex_digit(c),
    ensures
        digit_value(c) < 16,
        nibble_char(digit_value(c)) == c,
{
}

/// Hex text holds no byte outside `0-9a-f`, and reads back to the bytes it came from.
pub proof fn lemma_hex_round_trip(b: Seq<u8>)
    ensures
        is_hex_text(hex_of(b)),
        bytes_of_hex(hex_of(b)) == b,
{
    let h = hex_of(b);
    assert forall|i: int| 0 <= i < h.len() implies is_hex_digit(#[trigger] h[i]) by {
        lemma_nibble(b[i / 2] / 16);
        lemma_nibble(b[i / 2] % 16);
    }
    assert forall|i: int| 0 <= i < b.len() implies #[trigger] bytes_of_hex(h)[i] == b[i] by {
        assert((2 * i) / 2 == i && (2 * i) % 2 == 0);
        assert((2 * i + 1) / 2 == i && (2 * i + 1) % 2 == 1);
        lemma_nibble(b[i] / 16);
        lemma_nibble(b[i] % 16);
    }
    assert(bytes_of_hex(h) =~= b);
}

/// Hex text is the only text that reads back to its bytes.
pub proof fn lemma_hex_unique(s: Seq<u8>)
    requires
        is_hex_text(s),
    ensures
        hex_of(bytes_of_hex(s)) == s,
{
    let b = bytes_of_hex(s);
    assert forall|i: int| 0 <= i < s.len() implies #[trigger] hex_of(b)[i] == s[i] by {
        let k = i / 2;
        assert(0 <= k < b.len());
        assert(2 * k == i || 2 * k + 1 == i);
        lemma_digit(s[2 * k]);
        lemma_digit(s[2 * k + 1]);
    }
    assert(hex_of(b) =~= s);
}

fn nibble(n: u8) -> (r: u8)
    requires
        n < 16,
    ensures
        r == nibble_char(n),
{
    if n < 10 {
        48 + n
    } else {
        87 + n
    }
}

/// Writes `b` as lower-case hex text.
pub fn encode_hex(b: &[u8]) -> (r: Vec<u8>)
    requires
        b@.len() <= usize::MAX / 2,
    ensures
        r@ == hex_of(b@),
{
    let mut r: Vec<u8> = Vec::new();
    let mut i: usize = 0;
    while i < b.len()
        invariant
            i <= b@.len(),
            b@.len() <= usize::MAX / 2,
            r@.len() == 2 * i,
            forall|j: int| 0 <= j < 2 * i ==> #[trigger] r@[j] == hex_of(b@)[j],
        decreases b@.len() - i,
    {
        r.push(nibble(b[i] / 16));
        r.push(nibble(b[i] % 16));
        assert((2 * i as int) / 2 == i as int && (2 * i as int) % 2 == 0);
        assert((2 * i as int + 1) / 2 == i as int && (2 * i as int + 1) % 2 == 1);
        i = i + 1;
    }
    assert(r@ =~= hex_of(b@));
    r
}

fn digit(c: u8) -> (r: Option<u8>)
    ensures
        r == (if is_hex_digit(c) { Some(digit_value(c)) } else { None::<u8> }),
{
    if 48 <= c && c <= 57 {
        Some(c - 48)
    } else if 97 <= c && c <= 102 {
        Some(c - 87)
    } else {
        None
    }
}

/// Reads the hex text `s[lo..hi]`; `None` unless it is lower-case hex of even length.
pub fn decode_hex(s: &[u8], lo: usize, hi: usize) -> (r: Option<Vec<u8>>)
    requires
        lo <= hi <= s@.len(),
    ensures
        r is Some <==> is_hex_text(s@.subrange(lo as int, hi as int)),
        r matches Some(v) ==> v@ == bytes_of_hex(s@.subrange(lo as int, hi as int)),
{
    let ghost t = s@.subrange(lo as int, hi as int);
    if (hi - lo) % 2 != 0 {
        return None;
    }
    let mut r: Vec<u8> = Vec::new();
    let mut i: usize = 0;
    while i < (hi - lo) / 2
        invariant
            lo <= hi <= s@.len(),
            t == s@.subrange(lo as int, hi as int),
            t.len() % 2 == 0,
            i <= t.len() / 2,
            r@.len() == i,
            forall|j: int| 0 <= j < 2 * i ==> is_hex_digit(#[trigger] t[j]),
            forall|j: int| 0 <= j < i ==> #[trigger] r@[j] == bytes_of_hex(t)[j],
        decreases t.len() / 2 - i,
    {
        let hi_d = digit(s[lo + 2 * i]);
        let lo_d = digit(s[lo + 2 * i + 1]);
        match (hi_d, lo_d) {
            (Some(a), Some(b)) => {
                r.push(a * 16 + b);
                assert forall|j: int| 0 <= j < 2 * (i + 1) implies is_hex_digit(#[trigger] t[j]) by {
                    if j == 2 * i as int {
                    } else if j == 2 * i as int + 1 {
                    }
                }
            },
            _ => {
                assert(!is_hex_digit(t[2 * i as int]) || !is_hex_digit(t[2 * i as int + 1]));
                return None;
            },
        }
        i = i + 1;
    }
    assert(r@ =~= bytes_of_hex(t));
    Some(r)
}

} // verus!
