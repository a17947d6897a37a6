//! Runs queries against the store.
use vstd::prelude::*;
use crate::inputs::SurveyQuery;
use crate::store::{owned_by, page_of, survey_json, surveys_json, visible_survey, Survey, SurveyStore, StoreError};

verus! {

/// What `q` reads from the records `ss`: JSON text, or nothing for a survey that is
/// absent or written by someone else.
pub open spec fn query_answer(ss: Seq<Survey>, q: SurveyQuery) -> Option<Seq<u8>> {
    match q {
        SurveyQuery::FindSurvey(f) => match visible_survey(ss, f.id@, f.requesting_author@) {
            Some(s) => Some(survey_json(s)),
            None => None,
        },
        SurveyQuery::FindSurveysByAuthor(f) => Some(
            surveys_json(page_of(owned_by(ss, f.author@), f.page_config)),
        ),
    }
}

/// Runs `q` with one store read.
pub fn handle_query(store: &SurveyStore, q: SurveyQuery) -> (r: Result<Option<Vec<u8>>, StoreError>)
    requires
        store.wf(),
    ensures
        r matches Ok(o) && match query_answer(store@, q) {
            Some(b) => o matches Some(v) && v@ == b,
            None => o is None,
        },
{
    match q {
        SurveyQuery::FindSurvey(f) => Ok(store.find_survey(&f.id, &f.requesting_author)),
        SurveyQuery::FindSurveysByAuthor(f) => Ok(Some(store.find_by_author(&f.author, f.page_config))),
    }
}

} // verus!
