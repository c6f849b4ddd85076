//! Processes that were run outside.

use vstd::prelude::*;

verus! {

/// What a finished process left behind.
#[derive(Debug)]
pub struct ProcessOutput {
    pub success: bool,
    pub stdout: Vec<u8>,
    pub stderr: Vec<u8>,
}

} // verus!
