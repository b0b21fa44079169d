//! The freeze mechanisms.
use vstd::prelude::*;

verus! {

/// Which mechanism freezes processes.
#[derive(Debug, Clone, Copy, PartialEq, Eq, Structural)]
pub enum Mode {
    V1,
    V2,
    SIGSTOP,
}

/// Cgroup v1 freezer variants.
#[derive(Debug, Clone, Copy, PartialEq, Eq, Structural)]
pub enum V1Mode {
    Frozen,
}

/// Cgroup v2 freezer variants: one cgroup per uid, or shared
/// `frozen`/`unfrozen` groups.
#[derive(Debug, Clone, Copy, PartialEq, Eq, Structural)]
pub enum V2Mode {
    Uid,
    Frozen,
}

} // verus!
