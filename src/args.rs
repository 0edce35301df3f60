//! The command line of the editor.
use vstd::prelude::*;

verus! {

/// What the editor is started with: the file to open, if any.
#[derive(Clone, Debug, Default)]
pub struct Args {
    pub file_path: Option<String>,
}

} // verus!
