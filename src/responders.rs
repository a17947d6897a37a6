//! Replies as they go out: a status, whether the body is JSON, and the body.
use vstd::prelude::*;
use crate::inputs::{fits, ValidationError};
use crate::json::{ascii_bytes, json_string, push_ascii, push_json_string, MAX_LITERAL_LEN};
use crate::store::StoreError;
use crate::token::TokenError;

verus! {

/// A reply to one request.
#[derive(Clone, Debug)]
pub struct HttpReply {
    pub status: u16,
    /// Whether the body is sent as `application/json`.
    pub json: bool,
    pub body: Vec<u8>,
}

/// Every way a request can fail.
#[derive(Clone, Debug)]
pub enum ApiError {
    /// The input was refused before any store call.
    Validation(ValidationError),
    /// The request's token was absent or not accepted.
    Token(TokenError),
    /// The survey to change does not exist.
    NotFound,
    /// The store failed otherwise.
    Store(StoreError),
}

/// Whether `r` is the reply with these parts.
pub open spec fn reply_is(r: HttpReply, status: u16, json: bool, body: Seq<u8>) -> bool {
    r.status == status && r.json == json && r.body@ == body
}

/// The `ApiError` that a store error stands for: a missing survey is `NotFound`.
pub open spec fn store_error_kind(e: StoreError) -> ApiError {
    match e {
        StoreError::NotFound => ApiError::NotFound,
        _ => ApiError::Store(e),
    }
}

/// Maps a store error to the `ApiError` that stands for it.
pub fn from_store_error(e: StoreError) -> (r: ApiError)
    ensures
        r == store_error_kind(e),
{
    match e {
        StoreError::NotFound => ApiError::NotFound,
        _ => ApiError::Store(e),
    }
}

pub open spec fn error_status(e: &ApiError) -> u16 {
    match e {
        ApiError::Validation(_) => 400,
        ApiError::Token(_) => 401,
        ApiError::NotFound => 404,
        ApiError::Store(_) => 500,
    }
}

/// The message the client sees; store detail never reaches it.
pub open spec fn error_message(e: &ApiError) -> Seq<char> {
    match e {
        ApiError::Validation(_) => "invalid input"@,
        ApiError::Token(TokenError::TokenMissing) => "missing token: send the header Authorization: Bearer <token>"@,
        ApiError::Token(_) => "invalid or expired token"@,
        ApiError::NotFound => "survey not found"@,
        ApiError::Store(_) => "internal server error"@,
    }
}

pub open spec fn error_body(e: &ApiError) -> Seq<u8> {
    ascii_bytes("{\"error\":\""@) + ascii_bytes(error_message(e)) + ascii_bytes("\"}"@)
}

fn message(e: &ApiError) -> (r: &'static str)
    ensures
        r@ == error_message(e),
        vstd::string::is_ascii(r),
        r@.len() <= 64,
{
    proof {
        reveal_strlit("invalid input");
        reveal_strlit("missing token: send the header Authorization: Bearer <token>");
        reveal_strlit("invalid or expired token");
        reveal_strlit("survey not found");
        reveal_strlit("internal server error");
    }
    match e {
        ApiError::Validation(_) => "invalid input",
        ApiError::Token(TokenError::TokenMissing) => "missing token: send the header Authorization: Bearer <token>",
        ApiError::Token(_) => "invalid or expired token",
        ApiError::NotFound => "survey not found",
        ApiError::Store(_) => "internal server error",
    }
}

/// The reply for a failed request: the status of its kind and a JSON message.
pub fn error_reply(e: &ApiError) -> (r: HttpReply)
    ensures
        reply_is(r, error_status(e), true, error_body(e)),
{
    let status: u16 = match e {
        ApiError::Validation(_) => 400,
        ApiError::Token(_) => 401,
        ApiError::NotFound => 404,
        ApiError::Store(_) => 500,
    };
    let mut body: Vec<u8> = Vec::new();
    proof {
        reveal_strlit("{\"error\":\"");
        reveal_strlit("\"}");
    }
    push_ascii(&mut body, "{\"error\":\"");
    push_ascii(&mut body, message(e));
    push_ascii(&mut body, "\"}");
    HttpReply { status, json: true, body }
}

/// The body that names a survey id.
pub open spec fn id_body(id: Seq<char>) -> Seq<u8> {
    ascii_bytes("{\"id\":"@) + json_string(id) + ascii_bytes("}"@)
}

/// The reply to a command that succeeded: `{"id": ...}`.
pub fn survey_id_reply(id: &String) -> (r: HttpReply)
    requires
        fits(id@),
    ensures
        reply_is(r, 200, true, id_body(id@)),
{
    let mut body: Vec<u8> = Vec::new();
    proof {
        reveal_strlit("{\"id\":");
        reveal_strlit("}");
    }
    push_ascii(&mut body, "{\"id\":");
    push_json_string(&mut body, id.as_str());
    push_ascii(&mut body, "}");
    HttpReply { status: 200, json: true, body }
}

/// The reply to a query: the text the store wrote, as it is, or an empty body for
/// nothing found.
pub fn query_reply(res: Option<Vec<u8>>) -> (r: HttpReply)
    ensures
        match res {
            Some(p) => reply_is(r, 200, true, p@),
            None => reply_is(r, 200, false, Seq::empty()),
        },
{
    match res {
        Some(p) => HttpReply { status: 200, json: true, body: p },
        None => HttpReply { status: 200, json: false, body: Vec::new() },
    }
}

/// The body that hands out a token.
pub open spec fn token_body(token: Seq<u8>) -> Seq<u8> {
    ascii_bytes("{\"token\":\""@) + token + ascii_bytes("\"}"@)
}

/// The reply that hands out a token, whose text needs no escaping.
pub fn token_reply(token: &[u8]) -> (r: HttpReply)
    requires
        token@.len() <= MAX_LITERAL_LEN * 64,
    ensures
        reply_is(r, 200, true, token_body(token@)),
{
    let mut body: Vec<u8> = Vec::new();
    proof {
        reveal_strlit("{\"token\":\"");
        reveal_strlit("\"}");
    }
    push_ascii(&mut body, "{\"token\":\"");
    crate::bytes::append_bytes(&mut body, token);
    push_ascii(&mut body, "\"}");
    HttpReply { status: 200, json: true, body }
}

} // verus!
