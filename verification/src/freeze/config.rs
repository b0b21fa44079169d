//! The user's configuration (`freezer.toml`).
use vstd::prelude::*;
use crate::table::NameSet;
use super::FreezeMode;

verus! {

/// The configured freeze mode and the packages the user whitelisted.
#[derive(Debug)]
pub struct Config {
    pub mode: FreezeMode,
    pub whitelist: NameSet,
}

impl Config {
    /// Takes over the mode and whitelist of a freshly read configuration.
    pub fn load_config(&mut self, content: Config)
        ensures
            final(self).mode == content.mode,
            final(self).whitelist == content.whitelist,
    {
        self.mode = content.mode;
        self.whitelist = content.whitelist;
    }
}

} // verus!
