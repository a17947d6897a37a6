//! Runs commands against the store.
use vstd::prelude::*;
use vstd::utf8::is_ascii_chars;
use crate::inputs::{fits, SurveyCommand};
use crate::store::{has_id, is_created, is_updated, Survey, SurveyStore, StoreError, MAX_SURVEYS};

verus! {

/// Relies on uuid's `Uuid::new_v4` and its `Display`, which writes the hyphenated
/// form: 36 ASCII characters.
#[verifier::external_body]
pub(crate) fn new_uuid() -> (r: String)
    ensures
        r@.len() == 36,
        is_ascii_chars(r@),
{
    uuid::Uuid::new_v4().to_string()
}

/// What running `cmd` does to the records `old`, leaving `new` and answering `r`, when a
/// created survey gets the id `new_id`.
pub open spec fn command_effect(
    old: Seq<Survey>,
    new: Seq<Survey>,
    cmd: SurveyCommand,
    new_id: Seq<char>,
    r: Result<String, StoreError>,
) -> bool {
    match cmd {
        SurveyCommand::CreateSurvey(c) => if has_id(old, new_id) {
            r == Err::<String, StoreError>(StoreError::DuplicateId) && new == old
        } else if old.len() == MAX_SURVEYS {
            r == Err::<String, StoreError>(StoreError::Full) && new == old
        } else {
            &&& r matches Ok(rid) && rid@ == new_id
            &&& new.len() == old.len() + 1
            &&& new.drop_last() == old
            &&& is_created(new.last(), new_id, c)
        },
        SurveyCommand::UpdateSurvey(u) => if !has_id(old, u.id@) {
            r == Err::<String, StoreError>(StoreError::NotFound) && new == old
        } else {
            &&& r matches Ok(rid) && rid@ == u.id@
            &&& new.len() == old.len()
            &&& forall|i: int|
                0 <= i < old.len() ==> if old[i].id@ == u.id@ {
                    is_updated(#[trigger] new[i], old[i], u)
                } else {
                    new[i] == old[i]
                }
        },
    }
}

pub open spec fn command_wf(cmd: SurveyCommand) -> bool {
    match cmd {
        SurveyCommand::CreateSurvey(c) => c.wf(),
        SurveyCommand::UpdateSurvey(u) => u.wf(),
    }
}

/// Runs `cmd` with one store call; a created survey gets the id `new_id`, which an
/// update does not use.
pub fn handle_command_with_id(store: &mut SurveyStore, cmd: SurveyCommand, new_id: String) -> (r:
    Result<String, StoreError>)
    requires
        old(store).wf(),
        command_wf(cmd),
        cmd is CreateSurvey ==> fits(new_id@) && new_id@.len() > 0,
    ensures
        final(store).wf(),
        command_effect(old(store)@, final(store)@, cmd, new_id@, r),
{
    match cmd {
        SurveyCommand::CreateSurvey(c) => store.create(new_id, c),
        SurveyCommand::UpdateSurvey(u) => store.update(u),
    }
}

/// Runs `cmd` with one store call; a created survey gets a fresh random id.
pub fn handle_command(store: &mut SurveyStore, cmd: SurveyCommand) -> (r: Result<String, StoreError>)
    requires
        old(store).wf(),
        command_wf(cmd),
    ensures
        final(store).wf(),
        exists|id: Seq<char>|
            id.len() == 36 && #[trigger] command_effect(old(store)@, final(store)@, cmd, id, r),
{
    match cmd {
        SurveyCommand::CreateSurvey(c) => {
            let id = new_uuid();
            proof {
                vstd::utf8::is_ascii_chars_encode_utf8(id@);
            }
            handle_command_with_id(store, SurveyCommand::CreateSurvey(c), id)
        },
        SurveyCommand::UpdateSurvey(u) => {
            let r = handle_command_with_id(store, SurveyCommand::UpdateSurvey(u), String::new());
            assert(command_effect(old(store)@, final(store)@, cmd, seq!['0'; 36], r));
            r
        },
    }
}

} // verus!
