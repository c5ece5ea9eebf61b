//! Turns identifiers of crates in a catalog snapshot into render-ready
//! records for Open Graph images, at single-item, full-catalog or
//! selected-subset granularity.
//!
//! The two subsystems at the core are verified here:
//!
//! - the selective multi-pass snapshot loader ([`augment`]): six passes
//!   over the archive's tables build a read-only catalog index that
//!   retains only what the selection policy accepts, resolving
//!   cross-table references and silently dropping rows whose parent was
//!   filtered out;
//! - the bulk fan-out pipeline's decision core ([`bulk`]): the three
//!   input shapes, fail-fast draining of parsed names, and the
//!   admission-control bookkeeping that paces task starts by a cadence
//!   and bounds tasks in flight by a fixed capacity.
//!
//! Around them stand the validated crate names ([`names`]), the
//! display-shaped records handed to the renderer ([`convert`]), the
//! error taxonomy ([`error`]), and the small decision functions of the
//! remaining flows ([`one_shot`], [`prepare`]). Reading the archive,
//! rendering, and every other piece of I/O live outside the library and
//! hand it plain values.

use vstd::prelude::*;

pub mod augment;
pub mod bulk;
pub mod convert;
pub mod error;
pub mod names;
pub mod one_shot;
pub mod prepare;

verus! {

/// Arguments shared by every entry point: where the catalog snapshot
/// archive lives on disk.
pub struct CommonArgs {
    /// The path of the database dump
    pub db_dump_path: String,
}

} // verus!
