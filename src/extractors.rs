//! The bearer token of a request's `Authorization` header.
use vstd::prelude::*;
use crate::token::TokenError;

verus! {

/// `Bearer ` in ASCII.
pub open spec fn bearer_prefix() -> Seq<u8> {
    seq![66u8, 101u8, 97u8, 114u8, 101u8, 114u8, 32u8]
}

/// The token of an `Authorization` header of the form `Bearer <token>`.
pub open spec fn bearer_token_of(header: Option<Seq<u8>>) -> Result<Seq<u8>, TokenError> {
    match header {
        None => Err(TokenError::TokenMissing),
        Some(h) => if h.len() > 7 && h.subrange(0, 7) == bearer_prefix() {
            Ok(h.subrange(7, h.len() as int))
        } else {
            Err(TokenError::TokenMalformed)
        },
    }
}

/// Takes the token out of an `Authorization` header: `TokenMissing` without one,
/// `TokenMalformed` for one not of the form `Bearer <token>`.
pub fn bearer_token(header: Option<&[u8]>) -> (r: Result<&[u8], TokenError>)
    ensures
        match bearer_token_of(
            match header {
                Some(h) => Some(h@),
                None => None,
            },
        ) {
            Ok(t) => r matches Ok(x) && x@ == t,
            Err(e) => r == Err::<&[u8], TokenError>(e),
        },
{
    match header {
        None => Err(TokenError::TokenMissing),
        Some(h) => {
            if h.len() > 7 && h[0] == 66 && h[1] == 101 && h[2] == 97 && h[3] == 114 && h[4] == 101
                && h[5] == 114 && h[6] == 32 {
                assert(h@.subrange(0, 7) =~= bearer_prefix());
                let (_, t) = h.split_at(7);
                Ok(t)
            } else {
                proof {
                    if h@.len() > 7 && h@.subrange(0, 7) == bearer_prefix() {
                        assert(h@[0] == h@.subrange(0, 7)[0]);
                        assert(h@[1] == h@.subrange(0, 7)[1]);
                        assert(h@[2] == h@.subrange(0, 7)[2]);
                        assert(h@[3] == h@.subrange(0, 7)[3]);
                        assert(h@[4] == h@.subrange(0, 7)[4]);
                        assert(h@[5] == h@.subrange(0, 7)[5]);
                        assert(h@[6] == h@.subrange(0, 7)[6]);
                    }
                }
                Err(TokenError::TokenMalformed)
            }
        },
    }
}

} // verus!
