//! One function per route: from what a request carries to the reply it gets.
use vstd::prelude::*;
use vstd::utf8::encode_utf8;
use crate::commands::{handle_command, handle_command_with_id, new_uuid};
use crate::extractors::{bearer_token, bearer_token_of};
use crate::inputs::{
    create_issues, update_issues, DtoField, FieldIssue, FieldProblem, validate_create, validate_update, CreateSurveyDTO,
    FindSurveyQuery, FindSurveysByAuthorQuery, SurveyCommand, SurveyQuery, UpdateSurveyDTO,
};
use crate::inputs::fits;
use crate::json::{ascii_bytes, json_string, opt_view};
use crate::queries::{handle_query, query_answer};
use crate::responders::{
    error_body, error_reply, from_store_error, id_body, query_reply, reply_is,
    survey_id_reply, token_body, token_reply, ApiError, HttpReply,
};
use crate::store::{
    has_id, lemma_created_survey_visible, lemma_foreign_survey_hidden, owned_by, survey_with_id, page_of, survey_json, surveys_json, visible_survey, StoreError, Survey,
    SurveyStore, MAX_SURVEYS,
};
use crate::token::{
    create_token, decode_outcome, decode_payload, expiry_after, token_of, TokenError,
    TOKEN_LIFETIME,
};

verus! {

pub open spec fn header_view(h: Option<&[u8]>) -> Option<Seq<u8>> {
    match h {
        Some(b) => Some(b@),
        None => None,
    }
}

/// Who a request's `Authorization` header says sent it.
pub open spec fn requester_of(header: Option<Seq<u8>>, key: Seq<u8>, now: u64) -> Result<
    Seq<char>,
    TokenError,
> {
    match bearer_token_of(header) {
        Err(e) => Err(e),
        Ok(t) => match decode_outcome(key, t, now) {
            Err(e) => Err(e),
            Ok(c) => Ok(c.0),
        },
    }
}

/// The author of a create request: nobody without a header, else the header's subject.
pub open spec fn author_of(header: Option<Seq<u8>>, key: Seq<u8>, now: u64) -> Result<
    Option<Seq<char>>,
    TokenError,
> {
    match header {
        None => Ok(None),
        Some(_) => match requester_of(header, key, now) {
            Err(e) => Err(e),
            Ok(a) => Ok(Some(a)),
        },
    }
}

/// The reply to a token that was not accepted.
pub open spec fn token_refused(r: HttpReply, e: TokenError) -> bool {
    reply_is(r, 401, true, error_body(&ApiError::Token(e)))
}

/// The reply to input that was refused.
pub open spec fn input_refused(r: HttpReply) -> bool {
    r.status == 400 && r.json && exists|v| r.body@ == error_body(&ApiError::Validation(v))
}

fn requester(header: Option<&[u8]>, key: &[u8], now: u64) -> (r: Result<String, TokenError>)
    ensures
        match requester_of(header_view(header), key@, now) {
            Ok(a) => r matches Ok(s) && s@ == a,
            Err(e) => r == Err::<String, TokenError>(e),
        },
{
    let token = match bearer_token(header) {
        Ok(t) => t,
        Err(e) => return Err(e),
    };
    match decode_payload(key, token, now) {
        Ok(p) => Ok(p.username),
        Err(e) => Err(e),
    }
}

/// What `POST /survey` does when a created survey gets the id `id`.
pub open spec fn create_outcome(
    old: Seq<Survey>,
    new: Seq<Survey>,
    dto: CreateSurveyDTO,
    header: Option<Seq<u8>>,
    key: Seq<u8>,
    now: u64,
    id: Seq<char>,
    r: HttpReply,
) -> bool {
    match author_of(header, key, now) {
        Err(e) => token_refused(r, e) && new == old,
        Ok(a) => if create_issues(dto, a).len() > 0 {
            input_refused(r) && new == old
        } else if has_id(old, id) {
            reply_is(r, 500, true, error_body(&ApiError::Store(StoreError::DuplicateId))) && new
                == old
        } else if old.len() == MAX_SURVEYS {
            reply_is(r, 500, true, error_body(&ApiError::Store(StoreError::Full))) && new == old
        } else {
            &&& reply_is(r, 200, true, id_body(id))
            &&& new.len() == old.len() + 1
            &&& new.drop_last() == old
            &&& new.last().id@ == id
            &&& opt_view(&new.last().author) == a
            &&& opt_view(&dto.title) == Some(new.last().title@)
            &&& opt_view(&new.last().description) == opt_view(&dto.description)
        },
    }
}

/// Handles `POST /survey` when a created survey gets the id `new_id`: the author is the
/// subject of the request's token, if it sent one; the input is checked before the store
/// is called.
pub fn create_survey_with_id(
    store: &mut SurveyStore,
    dto: CreateSurveyDTO,
    authorization: Option<&[u8]>,
    key: &[u8],
    now: u64,
    new_id: String,
) -> (r: HttpReply)
    requires
        old(store).wf(),
        fits(new_id@),
        new_id@.len() > 0,
    ensures
        final(store).wf(),
        create_outcome(
            old(store)@,
            final(store)@,
            dto,
            header_view(authorization),
            key@,
            now,
            new_id@,
            r,
        ),
{
    let author = match authorization {
        None => None,
        Some(_) => match requester(authorization, key, now) {
            Ok(a) => Some(a),
            Err(e) => return error_reply(&ApiError::Token(e)),
        },
    };
    let cmd = match validate_create(dto, author) {
        Ok(c) => c,
        Err(e) => return error_reply(&ApiError::Validation(e)),
    };
    match handle_command_with_id(store, SurveyCommand::CreateSurvey(cmd), new_id) {
        Ok(id) => survey_id_reply(&id),
        Err(e) => error_reply(&from_store_error(e)),
    }
}

/// Handles `POST /survey`; a created survey gets a fresh random id.
pub fn create_survey(
    store: &mut SurveyStore,
    dto: CreateSurveyDTO,
    authorization: Option<&[u8]>,
    key: &[u8],
    now: u64,
) -> (r: HttpReply)
    requires
        old(store).wf(),
    ensures
        final(store).wf(),
        exists|id: Seq<char>|
            id.len() == 36 && #[trigger] create_outcome(
                old(store)@,
                final(store)@,
                dto,
                header_view(authorization),
                key@,
                now,
                id,
                r,
            ),
{
    let id = new_uuid();
    proof {
        vstd::utf8::is_ascii_chars_encode_utf8(id@);
    }
    let r = create_survey_with_id(store, dto, authorization, key, now, id);
    r
}

/// What `PATCH /survey` does.
pub open spec fn update_outcome(old: Seq<Survey>, new: Seq<Survey>, dto: UpdateSurveyDTO, r: HttpReply) -> bool {
    if update_issues(dto).len() > 0 {
        input_refused(r) && new == old
    } else {
        let id = opt_view(&dto.id)->0;
        if !has_id(old, id) {
            reply_is(r, 404, true, error_body(&ApiError::NotFound)) && new == old
        } else {
            &&& reply_is(r, 200, true, id_body(id))
            &&& new.len() == old.len()
            &&& forall|i: int|
                0 <= i < old.len() ==> if old[i].id@ == id {
                    &&& (#[trigger] new[i]).id@ == id
                    &&& opt_view(&new[i].author) == opt_view(&old[i].author)
                    &&& new[i].title@ == (match opt_view(&dto.title) {
                        Some(t) => t,
                        None => old[i].title@,
                    })
                    &&& opt_view(&new[i].description) == (match opt_view(&dto.description) {
                        Some(t) => Some(t),
                        None => opt_view(&old[i].description),
                    })
                } else {
                    new[i] == old[i]
                }
        }
    }
}

/// Handles `PATCH /survey`: the input is checked before the store is called, and the
/// reply names the id that was asked for.
pub fn update_survey(store: &mut SurveyStore, dto: UpdateSurveyDTO) -> (r: HttpReply)
    requires
        old(store).wf(),
    ensures
        final(store).wf(),
        update_outcome(old(store)@, final(store)@, dto, r),
{
    let cmd = match validate_update(dto) {
        Ok(c) => c,
        Err(e) => return error_reply(&ApiError::Validation(e)),
    };
    let requested = cmd.id.clone();
    match handle_command(store, SurveyCommand::UpdateSurvey(cmd)) {
        Ok(_) => survey_id_reply(&requested),
        Err(e) => error_reply(&from_store_error(e)),
    }
}

/// What `GET /survey/{id}` replies.
pub open spec fn find_outcome(ss: Seq<Survey>, header: Option<Seq<u8>>, id: Seq<char>, key: Seq<u8>, now: u64, r: HttpReply) -> bool {
    match requester_of(header, key, now) {
        Err(e) => token_refused(r, e),
        Ok(a) => match visible_survey(ss, id, a) {
            Some(s) => reply_is(r, 200, true, survey_json(s)),
            None => reply_is(r, 200, false, Seq::empty()),
        },
    }
}

/// Handles `GET /survey/{id}`: the survey if the token's subject wrote it, else an
/// empty body.
pub fn find_survey(store: &SurveyStore, authorization: Option<&[u8]>, id: String, key: &[u8], now: u64) -> (r: HttpReply)
    requires
        store.wf(),
    ensures
        find_outcome(store@, header_view(authorization), id@, key@, now, r),
{
    let username = match requester(authorization, key, now) {
        Ok(a) => a,
        Err(e) => return error_reply(&ApiError::Token(e)),
    };
    let query = FindSurveyQuery { id, requesting_author: username };
    match handle_query(store, SurveyQuery::FindSurvey(query)) {
        Ok(res) => query_reply(res),
        Err(e) => error_reply(&from_store_error(e)),
    }
}

/// What `GET /survey` replies.
pub open spec fn list_outcome(ss: Seq<Survey>, header: Option<Seq<u8>>, key: Seq<u8>, now: u64, r: HttpReply) -> bool {
    match requester_of(header, key, now) {
        Err(e) => token_refused(r, e),
        Ok(a) => reply_is(r, 200, true, surveys_json(owned_by(ss, a))),
    }
}

/// Handles `GET /survey`: every survey that the token's subject wrote.
pub fn find_authors_surveys(store: &SurveyStore, authorization: Option<&[u8]>, key: &[u8], now: u64) -> (r: HttpReply)
    requires
        store.wf(),
    ensures
        list_outcome(store@, header_view(authorization), key@, now, r),
{
    let username = match requester(authorization, key, now) {
        Ok(a) => a,
        Err(e) => return error_reply(&ApiError::Token(e)),
    };
    let ghost a = username@;
    let query = FindSurveysByAuthorQuery { author: username, page_config: None };
    assert(page_of(owned_by(store@, a), None) =~= owned_by(store@, a));
    match handle_query(store, SurveyQuery::FindSurveysByAuthor(query)) {
        Ok(Some(res)) => query_reply(Some(res)),
        Ok(None) => query_reply(None),
        Err(e) => error_reply(&from_store_error(e)),
    }
}

/// The subject of the tokens that `GET /token` hands out.
pub open spec fn test_user() -> Seq<char> {
    "test_user"@
}

/// Handles `GET /token`: a token for `test_user` with a fresh random user id.
pub fn get_token(key: &[u8], now: u64) -> (r: HttpReply)
    requires
        now <= u64::MAX - TOKEN_LIFETIME,
    ensures
        exists|uid: Seq<char>|
            uid.len() == 36 && reply_is(
                r,
                200,
                true,
                token_body(#[trigger] token_of(key@, encode_utf8(test_user()), encode_utf8(uid), expiry_after(now))),
            ),
{
    let user_id = new_uuid();
    proof {
        vstd::utf8::is_ascii_chars_encode_utf8(user_id@);
        reveal_strlit("test_user");
        vstd::utf8::is_ascii_chars_encode_utf8(test_user());
    }
    let token = create_token(key, "test_user", user_id.as_str(), now);
    token_reply(token.as_slice())
}

/// A survey that `POST /survey` created, with a token for `author`, is found by a lookup
/// of its id with a token for `author`: the id was not in use before, and the JSON text
/// found begins with it.
pub proof fn lemma_created_survey_found(
    old: Seq<Survey>,
    new: Seq<Survey>,
    dto: CreateSurveyDTO,
    header: Option<Seq<u8>>,
    key: Seq<u8>,
    now: u64,
    id: Seq<char>,
    r: HttpReply,
    author: Seq<char>,
)
    requires
        create_outcome(old, new, dto, header, key, now, id, r),
        author_of(header, key, now) == Ok::<Option<Seq<char>>, TokenError>(Some(author)),
        r.status == 200,
    ensures
        !has_id(old, id),
        visible_survey(new, id, author) matches Some(s) && s.id@ == id && survey_json(s).subrange(
            0,
            6 + json_string(id).len() as int,
        ) == ascii_bytes("{\"id\":"@) + json_string(id),
{
    reveal_strlit("invalid input");
    reveal_strlit("internal server error");
    let s = new.last();
    assert(new =~= old.push(s));
    lemma_created_survey_visible(old, s, author);
}

/// An update request without an id is refused for that reason, and the store is left
/// as it was.
pub proof fn lemma_update_without_id(old: Seq<Survey>, new: Seq<Survey>, dto: UpdateSurveyDTO, r: HttpReply)
    requires
        dto.id is None,
        update_outcome(old, new, dto, r),
    ensures
        update_issues(dto).len() > 0,
        update_issues(dto)[0] == (FieldIssue { field: DtoField::Id, problem: FieldProblem::Missing }),
        r.status == 400,
        new == old,
{
}

/// `GET /survey/{id}` with a token for someone other than the survey's author gets an
/// empty body with status 200: neither the survey nor an error.
pub proof fn lemma_foreign_lookup_empty(
    ss: Seq<Survey>,
    header: Option<Seq<u8>>,
    id: Seq<char>,
    key: Seq<u8>,
    now: u64,
    r: HttpReply,
    requester: Seq<char>,
)
    requires
        find_outcome(ss, header, id, key, now, r),
        requester_of(header, key, now) == Ok::<Seq<char>, TokenError>(requester),
        survey_with_id(ss, id) matches Some(s) && opt_view(&s.author) != Some(requester),
    ensures
        reply_is(r, 200, false, Seq::empty()),
{
    lemma_foreign_survey_hidden(ss, id, requester);
}

} // verus!
