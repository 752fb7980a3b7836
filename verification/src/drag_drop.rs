//! Finder file drops onto the Dock: one Capture input per dropped path,
//! split by mime type the same way clipboard file lists are.

use vstd::prelude::*;
use vstd::string::StringExecFns;
use crate::kind_detect::{inputs_for_each_path, inputs_for_paths};
use crate::store::CaptureInput;

verus! {

/// Why a drop yields no input.
#[derive(Debug, Clone, PartialEq, Eq)]
pub enum DropError {
    /// The drop delivered no path.
    Empty,
}

/// The user-facing message of a drop error.
pub open spec fn drop_error_message(e: DropError) -> Seq<char> {
    match e {
        DropError::Empty => "dropped path list is empty"@,
    }
}

impl DropError {
    /// The user-facing message of the error.
    pub fn to_message(&self) -> (r: String)
        ensures
            r@ == drop_error_message(*self),
    {
        match self {
            DropError::Empty => String::from_str("dropped path list is empty"),
        }
    }
}

/// One input per dropped path, in order: a `Shot` taken from disk for an
/// image mime, a `File` otherwise; `Empty` when no path was dropped.
pub fn decide_dropped_files(paths: Vec<String>) -> (r: Result<Vec<CaptureInput>, DropError>)
    ensures
        match r {
            Ok(v) => paths.len() > 0 && inputs_for_paths(paths@, v@),
            Err(e) => paths.len() == 0 && e == DropError::Empty,
        },
{
    if paths.len() == 0 {
        return Err(DropError::Empty);
    }
    Ok(inputs_for_each_path(&paths))
}

} // verus!
