//! What can go wrong at startup and while a request is served.

use vstd::prelude::*;

verus! {

/// Why the server cannot start. Either one is fatal: nothing is served.
#[derive(Clone, Copy, Debug, PartialEq, Eq, Structural)]
pub enum StartupConfigurationError {
    /// The shell document is missing or cannot be read.
    TemplateUnreadable,
    /// The shell document holds no `<body>` marker.
    MarkerNotFound,
}

impl StartupConfigurationError {
    /// The diagnostic printed before the process exits.
    pub fn message(&self) -> (text: &'static str)
        ensures
            text@ == match *self {
                StartupConfigurationError::TemplateUnreadable => "failed to read index.html"@,
                StartupConfigurationError::MarkerNotFound => "index.html has no <body> tag"@,
            },
    {
        match self {
            StartupConfigurationError::TemplateUnreadable => "failed to read index.html",
            StartupConfigurationError::MarkerNotFound => "index.html has no <body> tag",
        }
    }
}

/// Why no markup can be rendered for a request. The first three are faults
/// of the request path; the last is a failure of the navigation history.
#[derive(Clone, Copy, Debug, PartialEq, Eq, Structural)]
pub enum RenderError {
    /// The path does not start with `/`.
    RelativePath,
    /// The path holds a `?`: the query belongs in the parameters.
    QueryInPath,
    /// The path holds a `#`.
    FragmentInPath,
    /// The query parameters could not be written as a query string.
    QueryEncoding,
}

impl RenderError {
    /// The HTTP status that answers the request: a server error, whatever
    /// went wrong.
    pub fn status(&self) -> (code: u16)
        ensures
            code == 500,
    {
        500
    }

    /// What the answer says.
    pub fn message(&self) -> (text: &'static str)
        ensures
            text@ == match *self {
                RenderError::RelativePath => "the request path is not absolute"@,
                RenderError::QueryInPath => "the request path holds a query"@,
                RenderError::FragmentInPath => "the request path holds a fragment"@,
                RenderError::QueryEncoding => "failed to serialize query."@,
            },
    {
        match self {
            RenderError::RelativePath => "the request path is not absolute",
            RenderError::QueryInPath => "the request path holds a query",
            RenderError::FragmentInPath => "the request path holds a fragment",
            RenderError::QueryEncoding => "failed to serialize query.",
        }
    }
}

} // verus!
