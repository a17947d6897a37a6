use survey_manager_api::handlers::{
    create_survey, find_authors_surveys, find_survey, get_token, update_survey,
};
use survey_manager_api::inputs::{
    validate_create, validate_update, CreateSurveyCommand, CreateSurveyDTO, DtoField,
    FieldIssue, FieldProblem, PageConfig, UpdateSurveyCommand, UpdateSurveyDTO,
};
use survey_manager_api::responders::{error_reply, from_store_error, query_reply, ApiError};
use survey_manager_api::store::{StoreError, SurveyStore};
use survey_manager_api::token::{create_token, decode_payload, TokenError};

const KEY: &[u8] = b"route key";
const NOW: u64 = 1_700_000_000;

fn create_dto(title: Option<&str>) -> CreateSurveyDTO {
    CreateSurveyDTO { id: None, title: title.map(String::from), description: None }
}

fn bearer(user: &str) -> Vec<u8> {
    let mut h = b"Bearer ".to_vec();
    h.extend(create_token(KEY, user, "uid", NOW));
    h
}

fn body(r: &survey_manager_api::responders::HttpReply) -> String {
    String::from_utf8(r.body.clone()).unwrap()
}

fn id_of(r: &survey_manager_api::responders::HttpReply) -> String {
    let b = body(r);
    assert!(b.starts_with("{\"id\":\"") && b.ends_with("\"}"), "{}", b);
    b[7..b.len() - 2].to_string()
}

fn issue(field: DtoField, problem: FieldProblem) -> FieldIssue {
    FieldIssue { field, problem }
}

#[test]
fn create_refuses_an_id() {
    let dto = CreateSurveyDTO { id: Some("x".into()), title: Some("t".into()), description: None };
    let e = validate_create(dto, None).unwrap_err();
    assert_eq!(e.issues, vec![issue(DtoField::Id, FieldProblem::Unexpected)]);
}

#[test]
fn create_lists_every_fault() {
    let dto = CreateSurveyDTO { id: Some("x".into()), title: None, description: Some("d".repeat(5000)) };
    let e = validate_create(dto, Some(String::new())).unwrap_err();
    assert_eq!(
        e.issues,
        vec![
            issue(DtoField::Id, FieldProblem::Unexpected),
            issue(DtoField::Title, FieldProblem::Missing),
            issue(DtoField::Description, FieldProblem::TooLong),
            issue(DtoField::Author, FieldProblem::Empty),
        ]
    );
}

#[test]
fn create_builds_command() {
    let dto = CreateSurveyDTO { id: None, title: Some("t".into()), description: Some("d".into()) };
    let c = validate_create(dto, Some("bob".into())).unwrap();
    assert_eq!(c.title, "t");
    assert_eq!(c.description.as_deref(), Some("d"));
    assert_eq!(c.author.as_deref(), Some("bob"));
}

#[test]
fn update_without_id_is_refused() {
    let dto = UpdateSurveyDTO { id: None, title: Some("t2".into()), description: None };
    let e = validate_update(dto).unwrap_err();
    assert_eq!(e.issues, vec![issue(DtoField::Id, FieldProblem::Missing)]);
    let dto = UpdateSurveyDTO { id: Some(String::new()), title: Some(String::new()), description: None };
    let e = validate_update(dto).unwrap_err();
    assert_eq!(
        e.issues,
        vec![issue(DtoField::Id, FieldProblem::Empty), issue(DtoField::Title, FieldProblem::Empty)]
    );
}

#[test]
fn update_without_id_leaves_store_untouched() {
    let mut store = SurveyStore::new();
    let r = create_survey(&mut store, create_dto(Some("t")), Some(&bearer("amy")), KEY, NOW);
    assert_eq!(r.status, 200);
    let dto = UpdateSurveyDTO { id: None, title: Some("t2".into()), description: None };
    let r = update_survey(&mut store, dto);
    assert_eq!(r.status, 400);
    assert_eq!(body(&r), "{\"error\":\"invalid input\"}");
    assert_eq!(store.len(), 1);
}

#[test]
fn store_create_update_and_lookup() {
    let mut store = SurveyStore::new();
    let cmd = CreateSurveyCommand { author: Some("amy".into()), title: "q\"1\n".into(), description: None };
    assert_eq!(store.create("s1".into(), cmd.clone()), Ok("s1".to_string()));
    assert_eq!(store.create("s1".into(), cmd), Err(StoreError::DuplicateId));
    let found = store.find_survey(&"s1".to_string(), &"amy".to_string()).unwrap();
    assert_eq!(
        String::from_utf8(found).unwrap(),
        "{\"id\":\"s1\",\"author\":\"amy\",\"title\":\"q\\\"1\\u000a\",\"description\":null}"
    );
    let up = UpdateSurveyCommand { id: "s1".into(), title: None, description: Some("d".into()) };
    assert_eq!(store.update(up), Ok("s1".to_string()));
    let found = store.find_survey(&"s1".to_string(), &"amy".to_string()).unwrap();
    assert_eq!(
        String::from_utf8(found).unwrap(),
        "{\"id\":\"s1\",\"author\":\"amy\",\"title\":\"q\\\"1\\u000a\",\"description\":\"d\"}"
    );
    let missing = UpdateSurveyCommand { id: "s2".into(), title: None, description: None };
    assert_eq!(store.update(missing), Err(StoreError::NotFound));
}

#[test]
fn lookup_by_other_author_finds_nothing() {
    let mut store = SurveyStore::new();
    let cmd = CreateSurveyCommand { author: Some("bob".into()), title: "t".into(), description: None };
    store.create("s1".into(), cmd).unwrap();
    assert_eq!(store.find_survey(&"s1".to_string(), &"amy".to_string()), None);
    assert_eq!(store.find_survey(&"nope".to_string(), &"bob".to_string()), None);
}

#[test]
fn listing_is_scoped_and_paged() {
    let mut store = SurveyStore::new();
    for (id, who) in [("a", "amy"), ("b", "bob"), ("c", "amy"), ("d", "amy")] {
        let cmd = CreateSurveyCommand { author: Some(who.into()), title: id.into(), description: None };
        store.create(id.into(), cmd).unwrap();
    }
    let all = String::from_utf8(store.find_by_author(&"amy".to_string(), None)).unwrap();
    assert!(all.starts_with("[{\"id\":\"a\""));
    assert_eq!(all.matches("\"id\"").count(), 3);
    assert!(!all.contains("\"b\""));
    let page = PageConfig { page_num: 1, page_size: 2 };
    let second = String::from_utf8(store.find_by_author(&"amy".to_string(), Some(page))).unwrap();
    assert_eq!(second, "[{\"id\":\"d\",\"author\":\"amy\",\"title\":\"d\",\"description\":null}]");
    let far = PageConfig { page_num: usize::MAX, page_size: 2 };
    assert_eq!(store.find_by_author(&"amy".to_string(), Some(far)), b"[]".to_vec());
    assert_eq!(store.find_by_author(&"zed".to_string(), None), b"[]".to_vec());
}

#[test]
fn error_statuses_and_messages() {
    let e = validate_update(UpdateSurveyDTO { id: None, title: None, description: None }).unwrap_err();
    assert_eq!(error_reply(&ApiError::Validation(e)).status, 400);
    let missing = error_reply(&ApiError::Token(TokenError::TokenMissing));
    assert_eq!(missing.status, 401);
    assert_eq!(
        body(&missing),
        "{\"error\":\"missing token: send the header Authorization: Bearer <token>\"}"
    );
    let expired = error_reply(&ApiError::Token(TokenError::TokenExpired));
    assert_eq!(expired.status, 401);
    assert_eq!(body(&expired), "{\"error\":\"invalid or expired token\"}");
    assert_eq!(error_reply(&from_store_error(StoreError::NotFound)).status, 404);
    let full = error_reply(&from_store_error(StoreError::Full));
    assert_eq!(full.status, 500);
    assert_eq!(body(&full), "{\"error\":\"internal server error\"}");
}

#[test]
fn query_reply_passes_payload_through() {
    let r = query_reply(Some(b"{\"a\":1}".to_vec()));
    assert_eq!((r.status, r.json, body(&r)), (200, true, "{\"a\":1}".to_string()));
    let r = query_reply(None);
    assert_eq!((r.status, r.json, r.body.len()), (200, false, 0));
}

#[test]
fn create_gets_fresh_uuid_ids() {
    let mut store = SurveyStore::new();
    let a = id_of(&create_survey(&mut store, create_dto(Some("t")), None, KEY, NOW));
    let b = id_of(&create_survey(&mut store, create_dto(Some("t")), None, KEY, NOW));
    assert_eq!(a.len(), 36);
    assert_eq!(a.matches('-').count(), 4);
    assert_ne!(a, b);
}

#[test]
fn create_with_bad_token_is_refused() {
    let mut store = SurveyStore::new();
    let r = create_survey(&mut store, create_dto(Some("t")), Some(b"Bearer nope"), KEY, NOW);
    assert_eq!(r.status, 401);
    assert_eq!(store.len(), 0);
}

#[test]
fn get_token_issues_token_for_test_user() {
    let r = get_token(KEY, NOW);
    assert_eq!(r.status, 200);
    let b = body(&r);
    assert!(b.starts_with("{\"token\":\"") && b.ends_with("\"}"));
    let token = &b[10..b.len() - 2];
    let p = decode_payload(KEY, token.as_bytes(), NOW).unwrap();
    assert_eq!(p.username, "test_user");
    assert_eq!(p.user_id.len(), 36);
}

#[test]
fn end_to_end_survey_routes() {
    let mut store = SurveyStore::new();
    let auth = bearer("carol");
    let created = create_survey(&mut store, create_dto(Some("t")), Some(&auth), KEY, NOW);
    assert_eq!(created.status, 200);
    let id = id_of(&created);
    assert_eq!(id.len(), 36);

    let found = find_survey(&store, Some(&auth), id.clone(), KEY, NOW + 5);
    assert_eq!(found.status, 200);
    assert!(body(&found).contains(&format!("\"id\":\"{}\"", id)));

    let anonymous = find_survey(&store, None, id.clone(), KEY, NOW);
    assert_eq!(anonymous.status, 401);
    assert!(body(&anonymous).contains("missing token"));

    let other = find_survey(&store, Some(&bearer("dave")), id.clone(), KEY, NOW);
    assert_eq!((other.status, other.body.len()), (200, 0));

    let dto = UpdateSurveyDTO { id: Some(id.clone()), title: Some("t2".into()), description: None };
    let updated = update_survey(&mut store, dto);
    assert_eq!(updated.status, 200);
    assert_eq!(body(&updated), format!("{{\"id\":\"{}\"}}", id));

    let dto = UpdateSurveyDTO { id: None, title: Some("t2".into()), description: None };
    assert_eq!(update_survey(&mut store, dto).status, 400);

    let dto = UpdateSurveyDTO { id: Some("no-such-id".into()), title: None, description: None };
    assert_eq!(update_survey(&mut store, dto).status, 404);

    let listed = find_authors_surveys(&store, Some(&auth), KEY, NOW);
    assert_eq!(listed.status, 200);
    assert!(body(&listed).contains("\"title\":\"t2\""));
    let expired = find_authors_surveys(&store, Some(&auth), KEY, NOW + 100_000);
    assert_eq!(expired.status, 401);
}
