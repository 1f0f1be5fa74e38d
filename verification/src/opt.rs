//! The options of the command line.

use std::path::PathBuf;

use vstd::prelude::*;

verus! {

#[verifier::external_type_specification]
#[verifier::external_body]
pub struct ExPathBuf(PathBuf);

/// The options of the server.
#[derive(Debug)]
pub struct Opt {
    /// The directory to serve: it holds `index.html` and the static files.
    pub dir: PathBuf,
}

} // verus!
