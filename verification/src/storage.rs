//! Rules of the database store of sessions.
use crate::entities::session::{SessionEntity, SessionId};
use crate::errors::CoreError;
use vstd::prelude::*;

verus! {

broadcast use vstd::string::group_string_axioms;

/// The message refusing an update whose session does not carry the identifier
/// it is stored under.
pub open spec fn id_mismatch_text() -> Seq<char> {
    "Session ID mismatch"@
}

/// An update of the stored session `session_id` must carry a session with that
/// identifier; otherwise it is refused with a `ValidationFail`.
pub fn validate_update(session_id: SessionId, session_entity: &SessionEntity) -> (r: Result<(), CoreError>)
    ensures
        session_id == session_entity.id ==> r is Ok,
        session_id != session_entity.id ==> (r matches Err(CoreError::ValidationFail(m)) && m@
            == id_mismatch_text()),
{
    if session_id != session_entity.id {
        return Err(CoreError::ValidationFail(String::from_str("Session ID mismatch")));
    }
    Ok(())
}

/// The core error for an error of the database: a missing row is `NotFound`,
/// anything else an `InternalError` carrying the database's message.
pub fn map_diesel_error(not_found: bool, message: String) -> (r: CoreError)
    ensures
        not_found ==> r matches CoreError::NotFound,
        !not_found ==> (r matches CoreError::InternalError(m) && m@ == message@),
{
    if not_found {
        CoreError::NotFound
    } else {
        CoreError::InternalError(message)
    }
}

} // verus!
