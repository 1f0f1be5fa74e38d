//! Deciding what answers a request: a static file where one exists, the
//! rendered page otherwise.

use vstd::prelude::*;

use crate::error::RenderError;

verus! {

/// What looking for the requested path under the served directory gave.
#[derive(Clone, Copy, Debug, PartialEq, Eq, Structural)]
pub enum StaticLookup {
    /// A file exists at the path.
    Found,
    /// Nothing exists at the path.
    NotFound,
    /// The file system failed in another way, such as a denied permission.
    Failed,
}

/// How a request is answered.
#[derive(Clone, Copy, Debug, PartialEq, Eq, Structural)]
pub enum Action {
    /// With the bytes of the file.
    ServeFile,
    /// With the rendered page inside the shell.
    Render,
    /// With a server error.
    Fail,
}

/// The answer to each outcome of the lookup. Only a path at which nothing
/// exists falls through to the renderer; a failure is no "not found".
pub open spec fn action_for(lookup: StaticLookup) -> Action {
    match lookup {
        StaticLookup::Found => Action::ServeFile,
        StaticLookup::NotFound => Action::Render,
        StaticLookup::Failed => Action::Fail,
    }
}

/// The status of the answer; `fault` is what went wrong while rendering, if
/// anything did.
pub open spec fn status_for(action: Action, fault: Option<RenderError>) -> u16 {
    match action {
        Action::ServeFile => 200,
        Action::Render => if fault is Some {
            500
        } else {
            200
        },
        Action::Fail => 500,
    }
}

/// Decides how a request is answered from what the lookup gave.
pub fn dispatch(lookup: StaticLookup) -> (action: Action)
    ensures
        action == action_for(lookup),
{
    match lookup {
        StaticLookup::Found => Action::ServeFile,
        StaticLookup::NotFound => Action::Render,
        StaticLookup::Failed => Action::Fail,
    }
}

/// The HTTP status of the answer.
pub fn status(action: Action, fault: Option<RenderError>) -> (code: u16)
    ensures
        code == status_for(action, fault),
{
    match action {
        Action::ServeFile => 200,
        Action::Render => match fault {
            Some(error) => error.status(),
            None => 200,
        },
        Action::Fail => 500,
    }
}

/// The content type of a rendered answer.
pub fn content_type() -> (value: &'static str)
    ensures
        value@ == "text/html"@,
{
    "text/html"
}

/// A request is rendered exactly when nothing exists at its path, and no
/// failure of the file system or of the renderer is answered with success.
pub proof fn lemma_dispatch(lookup: StaticLookup, fault: Option<RenderError>)
    ensures
        action_for(lookup) == Action::Render <==> lookup == StaticLookup::NotFound,
        action_for(lookup) == Action::ServeFile <==> lookup == StaticLookup::Found,
        status_for(action_for(lookup), fault) == 200 <==> lookup == StaticLookup::Found || (lookup
            == StaticLookup::NotFound && fault is None),
        status_for(action_for(lookup), fault) == 200 || status_for(action_for(lookup), fault)
            == 500,
{
}

} // verus!
