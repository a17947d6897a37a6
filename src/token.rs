//! Signed, expiring bearer tokens.
//!
//! A token is ASCII text of four dot-separated hex fields: the subject's
//! name, an auxiliary user id, the expiry (a `u64` of seconds, big-endian),
//! and an HMAC-SHA256 tag over the first three fields as they stand in the
//! token.
use vstd::prelude::*;
use vstd::utf8::{decode_utf8, encode_utf8, valid_utf8};
use crate::bytes::{append_bytes, find_byte, same_bytes};
use crate::hex::{
    bytes_of_hex, decode_hex, encode_hex, hex_of, is_hex_text, lemma_hex_round_trip,
    lemma_hex_unique,
};
use hmac::{Hmac, Mac};

verus! {

/// How long a token stays valid after it is made, in seconds.
pub const TOKEN_LIFETIME: u64 = 3600;

/// The byte between the fields of a token.
pub const DOT: u8 = 46;

/// Why a request's token was not accepted.
#[derive(Clone, Copy, Debug, PartialEq, Eq, Structural)]
pub enum TokenError {
    /// No `Authorization: Bearer <token>` header was sent.
    TokenMissing,
    /// The text is not a token signed with this service's key.
    TokenMalformed,
    /// The token was genuine but its expiry has passed.
    TokenExpired,
}

/// What a genuine token says.
#[derive(Clone, Debug)]
pub struct TokenPayload {
    pub username: String,
    pub user_id: String,
    pub exp: u64,
}

/// The HMAC-SHA256 tag of `msg` under `key`.
pub uninterp spec fn hmac_sha256_of(key: Seq<u8>, msg: Seq<u8>) -> Seq<u8>;

/// Relies on hmac's `Hmac<Sha256>`: `new_from_slice` accepts keys of any length, and
/// `finalize` yields the 32-byte tag of everything passed to `update`.
#[verifier::external_body]
fn hmac_sha256(key: &[u8], msg: &[u8]) -> (r: Vec<u8>)
    ensures
        r@ == hmac_sha256_of(key@, msg@),
        r@.len() == 32,
{
    let mut mac = <Hmac<sha2::Sha256> as Mac>::new_from_slice(key).expect(
        "HMAC takes keys of any length",
    );
    mac.update(msg);
    mac.finalize().into_bytes().to_vec()
}

/// Relies on std's `String::from_utf8`: `Ok` exactly when the bytes are UTF-8, holding
/// the characters they encode.
#[verifier::external_body]
fn string_from_utf8(b: Vec<u8>) -> (r: Option<String>)
    ensures
        r is Some <==> valid_utf8(b@),
        r matches Some(s) ==> s@ == decode_utf8(b@),
{
    match String::from_utf8(b) {
        Ok(s) => Some(s),
        Err(_) => None,
    }
}

/// Eight bytes, most significant first.
pub open spec fn be_bytes(x: u64) -> Seq<u8> {
    seq![
        (x >> 56) as u8,
        (x >> 48) as u8,
        (x >> 40) as u8,
        (x >> 32) as u8,
        (x >> 24) as u8,
        (x >> 16) as u8,
        (x >> 8) as u8,
        x as u8,
    ]
}

pub open spec fn be_value(b: Seq<u8>) -> u64 {
    ((b[0] as u64) << 56) | ((b[1] as u64) << 48) | ((b[2] as u64) << 40) | ((b[3] as u64)
        << 32) | ((b[4] as u64) << 24) | ((b[5] as u64) << 16) | ((b[6] as u64) << 8) | (
    b[7] as u64)
}

proof fn lemma_be_round_trip(x: u64)
    ensures
        be_value(be_bytes(x)) == x,
{
    assert(((((x >> 56) as u8) as u64) << 56) | ((((x >> 48) as u8) as u64) << 48) | ((((x
        >> 40) as u8) as u64) << 40) | ((((x >> 32) as u8) as u64) << 32) | ((((x >> 24) as u8)
        as u64) << 24) | ((((x >> 16) as u8) as u64) << 16) | ((((x >> 8) as u8) as u64) << 8)
        | ((x as u8) as u64) == x) by (bit_vector);
}

proof fn lemma_be_unique(b: Seq<u8>)
    requires
        b.len() == 8,
    ensures
        be_bytes(be_value(b)) == b,
{
    let (b0, b1, b2, b3, b4, b5, b6, b7) = (b[0], b[1], b[2], b[3], b[4], b[5], b[6], b[7]);
    let v = be_value(b);
    assert(v == ((b0 as u64) << 56) | ((b1 as u64) << 48) | ((b2 as u64) << 40) | ((b3 as u64)
        << 32) | ((b4 as u64) << 24) | ((b5 as u64) << 16) | ((b6 as u64) << 8) | (b7 as u64));
    assert(v == ((b0 as u64) << 56) | ((b1 as u64) << 48) | ((b2 as u64) << 40) | ((b3 as u64)
        << 32) | ((b4 as u64) << 24) | ((b5 as u64) << 16) | ((b6 as u64) << 8) | (b7 as u64)
        ==> (v >> 56) as u8 == b0 && (v >> 48) as u8 == b1 && (v >> 40) as u8 == b2 && (v
        >> 32) as u8 == b3 && (v >> 24) as u8 == b4 && (v >> 16) as u8 == b5 && (v >> 8) as u8
        == b6 && v as u8 == b7) by (bit_vector);
    assert(be_bytes(v) =~= b);
}

/// The part of a token that its tag covers.
pub open spec fn signed_part(name: Seq<u8>, id: Seq<u8>, exp: u64) -> Seq<u8> {
    hex_of(name) + seq![DOT] + hex_of(id) + seq![DOT] + hex_of(be_bytes(exp))
}

/// The token that `key` signs for a subject, a user id and an expiry, all as bytes.
pub open spec fn token_of(key: Seq<u8>, name: Seq<u8>, id: Seq<u8>, exp: u64) -> Seq<u8> {
    signed_part(name, id, exp) + seq![DOT] + hex_of(hmac_sha256_of(key, signed_part(name, id, exp)))
}

/// Whether `t` is the token that `key` signs for `username`, `user_id` and `exp`.
pub open spec fn is_token_for(
    key: Seq<u8>,
    t: Seq<u8>,
    username: Seq<char>,
    user_id: Seq<char>,
    exp: u64,
) -> bool {
    t == token_of(key, encode_utf8(username), encode_utf8(user_id), exp)
}

/// The subject, user id and expiry that `t` carries, if `key` signed it.
pub open spec fn token_claims(key: Seq<u8>, t: Seq<u8>) -> Option<(Seq<char>, Seq<char>, u64)> {
    if exists|c: (Seq<char>, Seq<char>, u64)| is_token_for(key, t, c.0, c.1, c.2) {
        Some(choose|c: (Seq<char>, Seq<char>, u64)| is_token_for(key, t, c.0, c.1, c.2))
    } else {
        None
    }
}

/// What decoding `t` with `key` at time `now` yields: the claims of a genuine token
/// that has not expired, else why not.
pub open spec fn decode_outcome(key: Seq<u8>, t: Seq<u8>, now: u64) -> Result<
    (Seq<char>, Seq<char>, u64),
    TokenError,
> {
    match token_claims(key, t) {
        None => Err(TokenError::TokenMalformed),
        Some(c) => if now > c.2 {
            Err(TokenError::TokenExpired)
        } else {
            Ok(c)
        },
    }
}

/// The expiry of a token made at `now`.
pub open spec fn expiry_after(now: u64) -> u64 {
    (now + TOKEN_LIFETIME) as u64
}

/// Where the fields of `token_of(key, name, id, exp)` stand in `t`, and what they hold.
pub open spec fn token_layout(key: Seq<u8>, t: Seq<u8>, name: Seq<u8>, id: Seq<u8>, exp: u64) -> bool {
    let p1: int = 2 * name.len() as int;
    let p2: int = p1 + 1 + 2 * id.len() as int;
    let p3: int = p2 + 17;
    &&& t.len() > p3
    &&& t[p1] == DOT
    &&& t[p2] == DOT
    &&& t[p3] == DOT
    &&& forall|j: int| 0 <= j < p1 ==> t[j] != DOT
    &&& forall|j: int| p1 < j < p2 ==> t[j] != DOT
    &&& forall|j: int| p2 < j < p3 ==> t[j] != DOT
    &&& t.subrange(0, p1) == hex_of(name)
    &&& t.subrange(p1 + 1, p2) == hex_of(id)
    &&& t.subrange(p2 + 1, p3) == hex_of(be_bytes(exp))
    &&& t.subrange(0, p3) == signed_part(name, id, exp)
    &&& t.subrange(p3 + 1, t.len() as int) == hex_of(hmac_sha256_of(key, signed_part(name, id, exp)))
}

proof fn lemma_no_dot(b: Seq<u8>)
    ensures
        forall|j: int| 0 <= j < hex_of(b).len() ==> #[trigger] hex_of(b)[j] != DOT,
{
    lemma_hex_round_trip(b);
}

proof fn lemma_layout_of(key: Seq<u8>, name: Seq<u8>, id: Seq<u8>, exp: u64)
    ensures
        token_layout(key, token_of(key, name, id, exp), name, id, exp),
{
    let t = token_of(key, name, id, exp);
    let (hn, hi, he) = (hex_of(name), hex_of(id), hex_of(be_bytes(exp)));
    let sp = signed_part(name, id, exp);
    let hm = hex_of(hmac_sha256_of(key, sp));
    lemma_no_dot(name);
    lemma_no_dot(id);
    lemma_no_dot(be_bytes(exp));
    let p1: int = 2 * name.len() as int;
    let p2: int = p1 + 1 + 2 * id.len() as int;
    let p3: int = p2 + 17;
    assert(sp.len() == p3);
    assert(t.subrange(0, p1) =~= hn);
    assert(t.subrange(p1 + 1, p2) =~= hi);
    assert(t.subrange(p2 + 1, p3) =~= he);
    assert(t.subrange(0, p3) =~= sp);
    assert(t.subrange(p3 + 1, t.len() as int) =~= hm);
    assert forall|j: int| 0 <= j < p1 implies t[j] != DOT by {
        assert(t[j] == hn[j]);
    }
    assert forall|j: int| p1 < j < p2 implies t[j] != DOT by {
        assert(t[j] == hi[j - p1 - 1]);
    }
    assert forall|j: int| p2 < j < p3 implies t[j] != DOT by {
        assert(t[j] == he[j - p2 - 1]);
    }
}

proof fn lemma_claims_layout(key: Seq<u8>, t: Seq<u8>)
    ensures
        token_claims(key, t) matches Some(c) ==> is_token_for(key, t, c.0, c.1, c.2) && token_layout(
            key,
            t,
            encode_utf8(c.0),
            encode_utf8(c.1),
            c.2,
        ),
{
    if token_claims(key, t) is Some {
        let c = token_claims(key, t)->0;
        lemma_layout_of(key, encode_utf8(c.0), encode_utf8(c.1), c.2);
    }
}

/// The longest subject name or user id, in bytes, that a token carries.
pub const MAX_FIELD_LEN: usize = 0x1000_0000;

fn u64_to_be(x: u64) -> (r: Vec<u8>)
    ensures
        r@ == be_bytes(x),
{
    let r = vec![
        (x >> 56) as u8,
        (x >> 48) as u8,
        (x >> 40) as u8,
        (x >> 32) as u8,
        (x >> 24) as u8,
        (x >> 16) as u8,
        (x >> 8) as u8,
        x as u8,
    ];
    assert(r@ =~= be_bytes(x));
    r
}

fn u64_from_be(b: &[u8]) -> (r: u64)
    requires
        b@.len() == 8,
    ensures
        r == be_value(b@),
{
    ((b[0] as u64) << 56) | ((b[1] as u64) << 48) | ((b[2] as u64) << 40) | ((b[3] as u64) << 32)
        | ((b[4] as u64) << 24) | ((b[5] as u64) << 16) | ((b[6] as u64) << 8) | (b[7] as u64)
}

/// Makes the token that `key` signs for `username` and `user_id`, valid until
/// `TOKEN_LIFETIME` seconds after `now`.
pub fn create_token(key: &[u8], username: &str, user_id: &str, now: u64) -> (r: Vec<u8>)
    requires
        now <= u64::MAX - TOKEN_LIFETIME,
        encode_utf8(username@).len() <= MAX_FIELD_LEN,
        encode_utf8(user_id@).len() <= MAX_FIELD_LEN,
    ensures
        is_token_for(key@, r@, username@, user_id@, expiry_after(now)),
        r@.len() == 2 * encode_utf8(username@).len() + 2 * encode_utf8(user_id@).len() + 83,
{
    let name = username.as_bytes();
    let id = user_id.as_bytes();
    let exp = now + TOKEN_LIFETIME;
    let mut out = encode_hex(name);
    out.push(DOT);
    let id_hex = encode_hex(id);
    append_bytes(&mut out, id_hex.as_slice());
    out.push(DOT);
    let exp_bytes = u64_to_be(exp);
    let exp_hex = encode_hex(exp_bytes.as_slice());
    append_bytes(&mut out, exp_hex.as_slice());
    assert(out@ =~= signed_part(name@, id@, exp));
    let tag = hmac_sha256(key, out.as_slice());
    let tag_hex = encode_hex(tag.as_slice());
    out.push(DOT);
    append_bytes(&mut out, tag_hex.as_slice());
    assert(out@ =~= token_of(key@, name@, id@, exp));
    out
}

/// Dots at `i1 < i2 < i3` in `t`, each the first one after the one before.
pub open spec fn dots_at(t: Seq<u8>, i1: int, i2: int, i3: int) -> bool {
    &&& 0 <= i1 < i2 < i3 < t.len()
    &&& t[i1] == DOT && t[i2] == DOT && t[i3] == DOT
    &&& forall|j: int| 0 <= j < i1 ==> t[j] != DOT
    &&& forall|j: int| i1 < j < i2 ==> t[j] != DOT
    &&& forall|j: int| i2 < j < i3 ==> t[j] != DOT
}

fn find_dots(token: &[u8]) -> (r: Option<(usize, usize, usize)>)
    ensures
        r matches Some(x) ==> dots_at(token@, x.0 as int, x.1 as int, x.2 as int),
        r is None ==> forall|a: int, b: int, c: int| !#[trigger] dots_at(token@, a, b, c),
{
    let n = token.len();
    let i1 = match find_byte(token, 0, DOT) {
        Some(i) => i,
        None => return None,
    };
    let i2 = match find_byte(token, i1 + 1, DOT) {
        Some(i) => i,
        None => return None,
    };
    let i3 = match find_byte(token, i2 + 1, DOT) {
        Some(i) => i,
        None => return None,
    };
    Some((i1, i2, i3))
}

/// A signed token's fields stand where the first three dots put them.
proof fn lemma_claims_fields(key: Seq<u8>, t: Seq<u8>, i1: int, i2: int, i3: int)
    requires
        dots_at(t, i1, i2, i3),
        token_claims(key, t) is Some,
    ensures
        ({
            let c = token_claims(key, t)->0;
            &&& is_token_for(key, t, c.0, c.1, c.2)
            &&& is_hex_text(t.subrange(0, i1))
            &&& bytes_of_hex(t.subrange(0, i1)) == encode_utf8(c.0)
            &&& is_hex_text(t.subrange(i1 + 1, i2))
            &&& bytes_of_hex(t.subrange(i1 + 1, i2)) == encode_utf8(c.1)
            &&& is_hex_text(t.subrange(i2 + 1, i3))
            &&& bytes_of_hex(t.subrange(i2 + 1, i3)) == be_bytes(c.2)
            &&& is_hex_text(t.subrange(i3 + 1, t.len() as int))
            &&& bytes_of_hex(t.subrange(i3 + 1, t.len() as int)) == hmac_sha256_of(
                key,
                t.subrange(0, i3),
            )
        }),
{
    let c = token_claims(key, t)->0;
    let (n, d) = (encode_utf8(c.0), encode_utf8(c.1));
    lemma_claims_layout(key, t);
    let p1: int = 2 * n.len() as int;
    let p2: int = p1 + 1 + 2 * d.len() as int;
    assert(i1 == p1);
    assert(i2 == p2);
    assert(i3 == p2 + 17);
    lemma_hex_round_trip(n);
    lemma_hex_round_trip(d);
    lemma_hex_round_trip(be_bytes(c.2));
    lemma_hex_round_trip(hmac_sha256_of(key, signed_part(n, d, c.2)));
}

/// Text with dots where a token has them and hex fields between is the token of those fields.
proof fn lemma_rebuild(key: Seq<u8>, t: Seq<u8>, i1: int, i2: int, i3: int)
    requires
        dots_at(t, i1, i2, i3),
        is_hex_text(t.subrange(0, i1)),
        is_hex_text(t.subrange(i1 + 1, i2)),
        is_hex_text(t.subrange(i2 + 1, i3)),
        is_hex_text(t.subrange(i3 + 1, t.len() as int)),
        bytes_of_hex(t.subrange(i2 + 1, i3)).len() == 8,
        bytes_of_hex(t.subrange(i3 + 1, t.len() as int)) == hmac_sha256_of(key, t.subrange(0, i3)),
    ensures
        t == token_of(
            key,
            bytes_of_hex(t.subrange(0, i1)),
            bytes_of_hex(t.subrange(i1 + 1, i2)),
            be_value(bytes_of_hex(t.subrange(i2 + 1, i3))),
        ),
{
    let n = bytes_of_hex(t.subrange(0, i1));
    let d = bytes_of_hex(t.subrange(i1 + 1, i2));
    let e = bytes_of_hex(t.subrange(i2 + 1, i3));
    lemma_hex_unique(t.subrange(0, i1));
    lemma_hex_unique(t.subrange(i1 + 1, i2));
    lemma_hex_unique(t.subrange(i2 + 1, i3));
    lemma_hex_unique(t.subrange(i3 + 1, t.len() as int));
    lemma_be_unique(e);
    let x = be_value(e);
    let s3 = t.subrange(0, i3);
    let s2 = t.subrange(0, i2);
    lemma_join(t, i3);
    lemma_join(s3, i2);
    assert(s3.subrange(0, i2) =~= s2);
    assert(s3.subrange(i2 + 1, i3) =~= t.subrange(i2 + 1, i3));
    lemma_join(s2, i1);
    assert(s2.subrange(0, i1) =~= t.subrange(0, i1));
    assert(s2.subrange(i1 + 1, i2) =~= t.subrange(i1 + 1, i2));
    assert(s3 == signed_part(n, d, x));
}

proof fn lemma_join(t: Seq<u8>, i: int)
    requires
        0 <= i < t.len(),
        t[i] == DOT,
    ensures
        t == t.subrange(0, i) + seq![DOT] + t.subrange(i + 1, t.len() as int),
{
    assert(t =~= t.subrange(0, i) + seq![DOT] + t.subrange(i + 1, t.len() as int));
}

/// Checks `token` against `key` and the clock: the claims of a genuine token whose
/// expiry is not before `now`; `TokenExpired` for a genuine token past its expiry;
/// `TokenMalformed` for any other text.
pub fn decode_payload(key: &[u8], token: &[u8], now: u64) -> (r: Result<TokenPayload, TokenError>)
    ensures
        match decode_outcome(key@, token@, now) {
            Ok(c) => r matches Ok(p) && p.username@ == c.0 && p.user_id@ == c.1 && p.exp == c.2,
            Err(e) => r == Err::<TokenPayload, TokenError>(e),
        },
{
    let ghost t = token@;
    let ghost claimed = token_claims(key@, t);
    let n = token.len();
    let (i1, i2, i3) = match find_dots(token) {
        Some(x) => x,
        None => {
            proof {
                if claimed is Some {
                    let c = claimed->0;
                    lemma_claims_layout(key@, t);
                    let p1: int = 2 * encode_utf8(c.0).len() as int;
                    let p2: int = p1 + 1 + 2 * encode_utf8(c.1).len() as int;
                    assert(dots_at(t, p1, p2, p2 + 17));
                }
            }
            return Err(TokenError::TokenMalformed);
        },
    };
    proof {
        if claimed is Some {
            lemma_claims_fields(key@, t, i1 as int, i2 as int, i3 as int);
            let c = claimed->0;
            lemma_hex_round_trip(be_bytes(c.2));
        }
    }
    let name_bytes = match decode_hex(token, 0, i1) {
        Some(v) => v,
        None => return Err(TokenError::TokenMalformed),
    };
    let id_bytes = match decode_hex(token, i1 + 1, i2) {
        Some(v) => v,
        None => return Err(TokenError::TokenMalformed),
    };
    let exp_bytes = match decode_hex(token, i2 + 1, i3) {
        Some(v) => v,
        None => return Err(TokenError::TokenMalformed),
    };
    let tag = match decode_hex(token, i3 + 1, n) {
        Some(v) => v,
        None => return Err(TokenError::TokenMalformed),
    };
    if exp_bytes.len() != 8 {
        return Err(TokenError::TokenMalformed);
    }
    let (signed, _) = token.split_at(i3);
    let expected = hmac_sha256(key, signed);
    if !same_bytes(tag.as_slice(), expected.as_slice()) {
        return Err(TokenError::TokenMalformed);
    }
    let exp = u64_from_be(exp_bytes.as_slice());
    let ghost nb = name_bytes@;
    let ghost ib = id_bytes@;
    proof {
        lemma_rebuild(key@, t, i1 as int, i2 as int, i3 as int);
        if claimed is Some {
            let c = claimed->0;
            lemma_be_round_trip(c.2);
            vstd::utf8::encode_utf8_valid_utf8(c.0);
            vstd::utf8::encode_utf8_valid_utf8(c.1);
        }
    }
    let username = match string_from_utf8(name_bytes) {
        Some(s) => s,
        None => return Err(TokenError::TokenMalformed),
    };
    let user_id = match string_from_utf8(id_bytes) {
        Some(s) => s,
        None => return Err(TokenError::TokenMalformed),
    };
    proof {
        vstd::utf8::decode_utf8_encode_utf8(nb);
        vstd::utf8::decode_utf8_encode_utf8(ib);
        let w = (username@, user_id@, exp);
        assert(is_token_for(key@, t, w.0, w.1, w.2));
        let c = claimed->0;
        vstd::utf8::encode_utf8_decode_utf8(c.0);
        vstd::utf8::encode_utf8_decode_utf8(c.1);
        lemma_be_round_trip(c.2);
    }
    if now > exp {
        return Err(TokenError::TokenExpired);
    }
    Ok(TokenPayload { username, user_id, exp })
}

/// A token names one subject, user id and expiry: those it was made for.
pub proof fn lemma_claims_unique(
    key: Seq<u8>,
    t: Seq<u8>,
    username: Seq<char>,
    user_id: Seq<char>,
    exp: u64,
)
    requires
        is_token_for(key, t, username, user_id, exp),
    ensures
        token_claims(key, t) == Some((username, user_id, exp)),
{
    let w = (username, user_id, exp);
    assert(is_token_for(key, t, w.0, w.1, w.2));
    let (n, d) = (encode_utf8(username), encode_utf8(user_id));
    lemma_layout_of(key, n, d, exp);
    let p1: int = 2 * n.len() as int;
    let p2: int = p1 + 1 + 2 * d.len() as int;
    assert(dots_at(t, p1, p2, p2 + 17));
    lemma_claims_fields(key, t, p1, p2, p2 + 17);
    let c = token_claims(key, t)->0;
    lemma_hex_round_trip(n);
    lemma_hex_round_trip(d);
    lemma_hex_round_trip(be_bytes(exp));
    vstd::utf8::encode_utf8_decode_utf8(username);
    vstd::utf8::encode_utf8_decode_utf8(user_id);
    vstd::utf8::encode_utf8_decode_utf8(c.0);
    vstd::utf8::encode_utf8_decode_utf8(c.1);
    lemma_be_round_trip(exp);
    lemma_be_round_trip(c.2);
}

/// Decoding a token at the moment it was made gives back the subject and user id it
/// was made for.
pub proof fn lemma_token_round_trip(key: Seq<u8>, username: Seq<char>, user_id: Seq<char>, now: u64)
    requires
        now <= u64::MAX - TOKEN_LIFETIME,
    ensures
        decode_outcome(
            key,
            token_of(key, encode_utf8(username), encode_utf8(user_id), expiry_after(now)),
            now,
        ) == Ok::<(Seq<char>, Seq<char>, u64), TokenError>((username, user_id, expiry_after(now))),
{
    let t = token_of(key, encode_utf8(username), encode_utf8(user_id), expiry_after(now));
    lemma_claims_unique(key, t, username, user_id, expiry_after(now));
}

/// A genuine token decoded after its expiry is refused as expired, never as malformed.
pub proof fn lemma_expired_token(
    key: Seq<u8>,
    t: Seq<u8>,
    username: Seq<char>,
    user_id: Seq<char>,
    exp: u64,
    now: u64,
)
    requires
        is_token_for(key, t, username, user_id, exp),
        now > exp,
    ensures
        decode_outcome(key, t, now) == Err::<(Seq<char>, Seq<char>, u64), TokenError>(
            TokenError::TokenExpired,
        ),
{
    lemma_claims_unique(key, t, username, user_id, exp);
}

} // verus!
