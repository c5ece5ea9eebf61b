//! The single-item flow: render one crate's image to one output file.

use vstd::prelude::*;
use crate::names::CrateName;

verus! {

/// The one-shot subcommand's configuration.
#[derive(Debug)]
pub struct OneShot {
    /// The name of the crate.
    pub name: CrateName,
    /// The path to the PNG output file.
    pub out_path: String,
}

} // verus!
