//! The navigation history that stands in for the browser's while a request
//! is rendered.

use std::collections::HashMap;

use gloo::history::{History, HistoryError, MemoryHistory};
use vstd::prelude::*;
use vstd::string::*;

use crate::error::RenderError;
use crate::form::attached;
use crate::request::path_fault;

verus! {

#[verifier::external_type_specification]
#[verifier::external_body]
pub struct ExMemoryHistory(MemoryHistory);

#[verifier::external_type_specification]
#[verifier::external_body]
pub struct ExHistoryError(HistoryError);

/// The paths of the locations that a history in memory holds, the oldest
/// first, each as its bytes.
pub uninterp spec fn entries(history: MemoryHistory) -> Seq<Seq<u8>>;

/// The bytes of the query string of the location at which a history in
/// memory stands.
pub uninterp spec fn query(history: MemoryHistory) -> Seq<u8>;

/// `MemoryHistory::new` of gloo: a history that holds one location, the path
/// `/` without a query.
#[verifier::external_body]
pub(crate) fn memory_history() -> (history: MemoryHistory)
    ensures
        entries(history) == seq![seq![0x2fu8]],
        query(history) == Seq::<u8>::empty(),
{
    MemoryHistory::new()
}

/// `History::replace_with_query` of gloo on a history in memory that holds
/// one location. With names and values that are strings gloo's encoder has
/// no way to fail, so the call succeeds: the path stands in the place of
/// that location, and the query string is a `?` followed by the parameters,
/// form-encoded, in the order in which the map hands them out. It panics on
/// a path that does not start with `/` or that holds `?` or `#`, so such
/// paths are left out.
#[verifier::external_body]
pub(crate) fn replace_with_query(
    history: &mut MemoryHistory,
    path: &str,
    queries: &HashMap<String, String>,
) -> (placed: Result<(), HistoryError>)
    requires
        path_fault(path.spec_bytes()) is None,
        entries(*old(history)).len() == 1,
    ensures
        placed is Ok,
        entries(*final(history)) == seq![path.spec_bytes()],
        attached(query(*final(history)), queries@),
{
    history.replace_with_query(path, queries)
}

/// What a request gets once its location was put into `history`: the
/// history, or the error that stands for a failure to do so.
pub fn history_outcome(placed: Result<(), HistoryError>, history: MemoryHistory) -> (result:
    Result<MemoryHistory, RenderError>)
    ensures
        result == match placed {
            Ok(_) => Ok::<MemoryHistory, RenderError>(history),
            Err(_) => Err(RenderError::QueryEncoding),
        },
{
    match placed {
        Ok(_) => Ok(history),
        Err(_) => Err(RenderError::QueryEncoding),
    }
}

} // verus!
