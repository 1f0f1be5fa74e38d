//! What a request asks to be rendered: a path and its query parameters.

use std::collections::HashMap;

use gloo::history::MemoryHistory;
use vstd::prelude::*;
use vstd::string::*;
use vstd::utf8::*;

use crate::error::RenderError;
use crate::form::attached;
use crate::history::{entries, history_outcome, memory_history, query, replace_with_query};
use crate::route::{resolve, Route};

verus! {

/// What is wrong with a request path, if anything: it must start with `/`
/// and hold neither `?` nor `#`.
pub open spec fn path_fault(path: Seq<u8>) -> Option<RenderError> {
    if path.len() == 0 || path[0] != 0x2f {
        Some(RenderError::RelativePath)
    } else if path.contains(0x3f) {
        Some(RenderError::QueryInPath)
    } else if path.contains(0x23) {
        Some(RenderError::FragmentInPath)
    } else {
        None
    }
}

/// Tells whether `byte` is among `bytes`.
pub fn holds(bytes: &[u8], byte: u8) -> (found: bool)
    ensures
        found == bytes@.contains(byte),
{
    let length: usize = bytes.len();
    let mut at: usize = 0;
    while at < length
        invariant
            at <= length == bytes@.len(),
            forall|earlier: int| 0 <= earlier < at ==> bytes@[earlier] != byte,
        decreases length - at,
    {
        if bytes[at] == byte {
            return true;
        }
        at += 1;
    }
    false
}

/// Checks a request path.
pub fn check_path(path: &str) -> (fault: Option<RenderError>)
    ensures
        fault == path_fault(path.spec_bytes()),
{
    let bytes = path.as_bytes();
    if bytes.len() == 0 || bytes[0] != 0x2f {
        Some(RenderError::RelativePath)
    } else if holds(bytes, 0x3f) {
        Some(RenderError::QueryInPath)
    } else if holds(bytes, 0x23) {
        Some(RenderError::FragmentInPath)
    } else {
        None
    }
}

/// The query parameters have no part in which page is shown: two requests
/// for the same path name the same page, whatever their parameters.
pub proof fn lemma_parameters_leave_the_route(first: RenderRequest, second: RenderRequest)
    requires
        first.path_bytes() == second.path_bytes(),
    ensures
        resolve(first.path_bytes()) == resolve(second.path_bytes()),
{
}

/// What the server hands to the page it renders: the path asked for and the
/// query parameters, as they came. Nothing is checked yet.
pub struct ServerAppProps {
    pub uri: String,
    pub queries: HashMap<String, String>,
}

impl ServerAppProps {
    /// The request to render, unless the path has a fault.
    pub fn request(self) -> (result: Result<RenderRequest, RenderError>)
        ensures
            match result {
                Ok(request) => {
                    &&& path_fault(encode_utf8(self.uri@)) is None
                    &&& request.wf()
                    &&& request.path_bytes() == encode_utf8(self.uri@)
                    &&& request.parameters() == self.queries@
                },
                Err(error) => path_fault(encode_utf8(self.uri@)) == Some(error),
            },
    {
        RenderRequest::new(self.uri, self.queries)
    }
}

/// A request to render: the path asked for and the query parameters, each
/// name once.
pub struct RenderRequest {
    path: String,
    queries: HashMap<String, String>,
}

impl RenderRequest {
    /// The bytes of the path.
    pub closed spec fn path_bytes(&self) -> Seq<u8> {
        encode_utf8(self.path@)
    }

    /// The query parameters, by name.
    pub closed spec fn parameters(&self) -> Map<String, String> {
        self.queries@
    }

    /// The path has no fault.
    #[verifier::type_invariant]
    pub closed spec fn wf(&self) -> bool {
        path_fault(self.path_bytes()) is None
    }

    /// A request for `path` with the parameters `queries`, unless the path
    /// has a fault.
    pub fn new(path: String, queries: HashMap<String, String>) -> (result: Result<
        RenderRequest,
        RenderError,
    >)
        ensures
            match result {
                Ok(request) => {
                    &&& path_fault(encode_utf8(path@)) is None
                    &&& request.wf()
                    &&& request.path_bytes() == encode_utf8(path@)
                    &&& request.parameters() == queries@
                },
                Err(error) => path_fault(encode_utf8(path@)) == Some(error),
            },
    {
        match check_path(path.as_str()) {
            Some(error) => Err(error),
            None => Ok(RenderRequest { path, queries }),
        }
    }

    /// The path asked for.
    pub fn path(&self) -> (path: &str)
        ensures
            path.spec_bytes() == self.path_bytes(),
            path_fault(path.spec_bytes()) is None,
    {
        proof {
            use_type_invariant(self);
        }
        self.path.as_str()
    }

    /// The query parameters.
    pub fn queries(&self) -> (queries: &HashMap<String, String>)
        ensures
            queries@ == self.parameters(),
    {
        &self.queries
    }

    /// The page that the path names, if any. The parameters have no part in
    /// it.
    pub fn route(&self) -> (route: Option<Route>)
        ensures
            route == resolve(self.path_bytes()),
    {
        Route::recognize(self.path.as_str())
    }

    /// A navigation history in memory whose only entry is the path, with
    /// the parameters attached as its query.
    pub fn history(&self) -> (result: Result<MemoryHistory, RenderError>)
        ensures
            result matches Ok(history) && {
                &&& entries(history) == seq![self.path_bytes()]
                &&& attached(query(history), self.parameters())
            },
    {
        proof {
            use_type_invariant(self);
        }
        let mut history = memory_history();
        let placed = replace_with_query(&mut history, self.path.as_str(), &self.queries);
        history_outcome(placed, history)
    }
}

} // verus!
