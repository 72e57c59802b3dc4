//! The timeline data model of a non-linear video editor: projects that hold ordered tracks,
//! tracks that hold time-positioned clips, and clips that reference a project's media assets.
//!
//! `models` holds the records and the rules that compute their derived fields, `store` the
//! four relations with their invariant (references resolve, order indices are dense) and the
//! operations over them, `references` the list of bookmarked files.

use vstd::prelude::*;

pub mod models;
pub mod references;
pub mod store;

verus! {

} // verus!
