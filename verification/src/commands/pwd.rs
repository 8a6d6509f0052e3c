//! `pwd`.
use vstd::prelude::*;
use crate::constants::fallback::ERR_PWD;
use crate::text::{fill, fill_first};
use crate::types::errors::ShellError;

verus! {

/// The failure when the working directory cannot be read, from the system's
/// description of the error.
pub fn failed(err: &str) -> (e: ShellError)
    ensures
        e matches ShellError::Generic(m) && m@ == fill_first(ERR_PWD@, err@),
{
    ShellError::Generic(fill(ERR_PWD, err))
}

} // verus!
