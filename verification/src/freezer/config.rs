//! The user's configuration (`freezer.toml`).
use vstd::prelude::*;
use crate::table::NameSet;

verus! {

/// The packages that the user whitelisted.
#[derive(Debug)]
pub struct ConfigData {
    pub white_list: NameSet,
}

} // verus!
