//! Wire-level inputs, the commands and queries made from them, and the checks between.
use vstd::prelude::*;
use vstd::utf8::encode_utf8;
use crate::json::{opt_view, MAX_TEXT_LEN};

verus! {

/// The body of a request that creates a survey.
#[derive(Clone, Debug)]
pub struct CreateSurveyDTO {
    pub id: Option<String>,
    pub title: Option<String>,
    pub description: Option<String>,
}

/// The body of a request that changes a survey.
#[derive(Clone, Debug)]
pub struct UpdateSurveyDTO {
    pub id: Option<String>,
    pub title: Option<String>,
    pub description: Option<String>,
}

/// A field that a check can find fault with.
#[derive(Clone, Copy, Debug, PartialEq, Eq, Structural)]
pub enum DtoField {
    Id,
    Title,
    Description,
    Author,
}

/// What is wrong with a field.
#[derive(Clone, Copy, Debug, PartialEq, Eq, Structural)]
pub enum FieldProblem {
    /// The field is required and absent.
    Missing,
    /// The field must not be sent here.
    Unexpected,
    /// The field is present but empty.
    Empty,
    /// The field holds more than `MAX_TEXT_LEN` bytes.
    TooLong,
}

#[derive(Clone, Copy, Debug, PartialEq, Eq, Structural)]
pub struct FieldIssue {
    pub field: DtoField,
    pub problem: FieldProblem,
}

/// Every fault found in one input, in field order.
#[derive(Clone, Debug)]
pub struct ValidationError {
    pub issues: Vec<FieldIssue>,
}

/// Creates a survey.
#[derive(Clone, Debug)]
pub struct CreateSurveyCommand {
    pub author: Option<String>,
    pub title: String,
    pub description: Option<String>,
}

/// Changes the fields given of the survey `id`.
#[derive(Clone, Debug)]
pub struct UpdateSurveyCommand {
    pub id: String,
    pub title: Option<String>,
    pub description: Option<String>,
}

#[derive(Clone, Debug)]
pub enum SurveyCommand {
    CreateSurvey(CreateSurveyCommand),
    UpdateSurvey(UpdateSurveyCommand),
}

/// One page of a listing: `page_size` items after the first `page_num * page_size`.
#[derive(Clone, Copy, Debug, PartialEq, Eq, Structural)]
pub struct PageConfig {
    pub page_num: usize,
    pub page_size: usize,
}

/// The survey `id`, if `requesting_author` wrote it.
#[derive(Clone, Debug)]
pub struct FindSurveyQuery {
    pub id: String,
    pub requesting_author: String,
}

/// The surveys that `author` wrote; all of them when `page_config` is `None`.
#[derive(Clone, Debug)]
pub struct FindSurveysByAuthorQuery {
    pub author: String,
    pub page_config: Option<PageConfig>,
}

#[derive(Clone, Debug)]
pub enum SurveyQuery {
    FindSurvey(FindSurveyQuery),
    FindSurveysByAuthor(FindSurveysByAuthorQuery),
}

/// Whether text is short enough to be stored.
pub open spec fn fits(s: Seq<char>) -> bool {
    encode_utf8(s).len() <= MAX_TEXT_LEN
}

pub open spec fn issue(field: DtoField, problem: FieldProblem) -> Seq<FieldIssue> {
    seq![FieldIssue { field, problem }]
}

/// The faults of a present text field.
pub open spec fn text_issues(field: DtoField, s: Seq<char>, allow_empty: bool) -> Seq<FieldIssue> {
    if !allow_empty && s.len() == 0 {
        issue(field, FieldProblem::Empty)
    } else if !fits(s) {
        issue(field, FieldProblem::TooLong)
    } else {
        Seq::empty()
    }
}

pub open spec fn required_issues(field: DtoField, s: Option<Seq<char>>) -> Seq<FieldIssue> {
    match s {
        None => issue(field, FieldProblem::Missing),
        Some(v) => text_issues(field, v, false),
    }
}

pub open spec fn optional_issues(field: DtoField, s: Option<Seq<char>>, allow_empty: bool) -> Seq<
    FieldIssue,
> {
    match s {
        None => Seq::empty(),
        Some(v) => text_issues(field, v, allow_empty),
    }
}

/// The faults of a create request: an `id` is refused, a `title` is required.
pub open spec fn create_issues(dto: CreateSurveyDTO, author: Option<Seq<char>>) -> Seq<FieldIssue> {
    (if dto.id is Some {
        issue(DtoField::Id, FieldProblem::Unexpected)
    } else {
        Seq::empty()
    }) + required_issues(DtoField::Title, opt_view(&dto.title)) + optional_issues(
        DtoField::Description,
        opt_view(&dto.description),
        true,
    ) + optional_issues(DtoField::Author, author, false)
}

/// The faults of an update request: an `id` is required.
pub open spec fn update_issues(dto: UpdateSurveyDTO) -> Seq<FieldIssue> {
    required_issues(DtoField::Id, opt_view(&dto.id)) + optional_issues(
        DtoField::Title,
        opt_view(&dto.title),
        false,
    ) + optional_issues(DtoField::Description, opt_view(&dto.description), true)
}

impl CreateSurveyCommand {
    /// Every text fits, and the title is not empty.
    pub open spec fn wf(&self) -> bool {
        &&& fits(self.title@) && self.title@.len() > 0
        &&& self.description matches Some(d) ==> fits(d@)
        &&& self.author matches Some(a) ==> fits(a@) && a@.len() > 0
    }
}

impl UpdateSurveyCommand {
    /// Every text fits, and neither the id nor a new title is empty.
    pub open spec fn wf(&self) -> bool {
        &&& fits(self.id@) && self.id@.len() > 0
        &&& self.title matches Some(t) ==> fits(t@) && t@.len() > 0
        &&& self.description matches Some(d) ==> fits(d@)
    }
}

fn text_fits(s: &String) -> (r: bool)
    ensures
        r == fits(s@),
{
    s.as_str().as_bytes().len() <= MAX_TEXT_LEN
}

fn push_text_issues(issues: &mut Vec<FieldIssue>, field: DtoField, s: &String, allow_empty: bool)
    ensures
        final(issues)@ == old(issues)@ + text_issues(field, s@, allow_empty),
{
    if !allow_empty && s.as_str().is_empty() {
        issues.push(FieldIssue { field, problem: FieldProblem::Empty });
    } else if !text_fits(s) {
        issues.push(FieldIssue { field, problem: FieldProblem::TooLong });
    }
    assert(final(issues)@ =~= old(issues)@ + text_issues(field, s@, allow_empty));
}

fn push_optional_issues(
    issues: &mut Vec<FieldIssue>,
    field: DtoField,
    s: &Option<String>,
    allow_empty: bool,
)
    ensures
        final(issues)@ == old(issues)@ + optional_issues(field, opt_view(s), allow_empty),
{
    match s {
        Some(v) => push_text_issues(issues, field, v, allow_empty),
        None => {
            assert(issues@ =~= issues@ + Seq::<FieldIssue>::empty());
        },
    }
}

fn push_required_issues(issues: &mut Vec<FieldIssue>, field: DtoField, s: &Option<String>)
    ensures
        final(issues)@ == old(issues)@ + required_issues(field, opt_view(s)),
{
    match s {
        Some(v) => push_text_issues(issues, field, v, false),
        None => {
            issues.push(FieldIssue { field, problem: FieldProblem::Missing });
            assert(final(issues)@ =~= old(issues)@ + required_issues(field, opt_view(s)));
        },
    }
}

/// Turns a create request, with the author that sent it if known, into a command;
/// fails with every fault of `create_issues`, if there is any.
pub fn validate_create(dto: CreateSurveyDTO, author: Option<String>) -> (r: Result<
    CreateSurveyCommand,
    ValidationError,
>)
    ensures
        r is Ok <==> create_issues(dto, opt_view(&author)).len() == 0,
        r matches Err(e) ==> e.issues@ == create_issues(dto, opt_view(&author)),
        r matches Ok(c) ==> {
            &&& c.wf()
            &&& opt_view(&dto.title) == Some(c.title@)
            &&& opt_view(&c.description) == opt_view(&dto.description)
            &&& opt_view(&c.author) == opt_view(&author)
        },
{
    let mut issues: Vec<FieldIssue> = Vec::new();
    if dto.id.is_some() {
        issues.push(FieldIssue { field: DtoField::Id, problem: FieldProblem::Unexpected });
    }
    assert(issues@ =~= (if dto.id is Some {
        issue(DtoField::Id, FieldProblem::Unexpected)
    } else {
        Seq::empty()
    }));
    push_required_issues(&mut issues, DtoField::Title, &dto.title);
    push_optional_issues(&mut issues, DtoField::Description, &dto.description, true);
    push_optional_issues(&mut issues, DtoField::Author, &author, false);
    if issues.len() > 0 {
        return Err(ValidationError { issues });
    }
    let CreateSurveyDTO { id: _, title, description } = dto;
    match title {
        Some(title) => Ok(CreateSurveyCommand { author, title, description }),
        None => Err(ValidationError { issues }),
    }
}

/// Turns an update request into a command; fails with every fault of `update_issues`,
/// if there is any.
pub fn validate_update(dto: UpdateSurveyDTO) -> (r: Result<UpdateSurveyCommand, ValidationError>)
    ensures
        r is Ok <==> update_issues(dto).len() == 0,
        r matches Err(e) ==> e.issues@ == update_issues(dto),
        r matches Ok(c) ==> {
            &&& c.wf()
            &&& opt_view(&dto.id) == Some(c.id@)
            &&& opt_view(&c.title) == opt_view(&dto.title)
            &&& opt_view(&c.description) == opt_view(&dto.description)
        },
{
    let mut issues: Vec<FieldIssue> = Vec::new();
    push_required_issues(&mut issues, DtoField::Id, &dto.id);
    assert(issues@ =~= required_issues(DtoField::Id, opt_view(&dto.id)));
    push_optional_issues(&mut issues, DtoField::Title, &dto.title, false);
    push_optional_issues(&mut issues, DtoField::Description, &dto.description, true);
    if issues.len() > 0 {
        return Err(ValidationError { issues });
    }
    let UpdateSurveyDTO { id, title, description } = dto;
    match id {
        Some(id) => Ok(UpdateSurveyCommand { id, title, description }),
        None => Err(ValidationError { issues }),
    }
}

} // verus!
