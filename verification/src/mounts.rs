//! Which cgroup freezer files exist on this device.
use vstd::prelude::*;

verus! {

/// `/sys/fs/cgroup/uid_0/cgroup.freeze`: the v2 hierarchy has one cgroup per uid.
pub const V2_UID_FREEZE: &'static str = "/sys/fs/cgroup/uid_0/cgroup.freeze";
/// `cgroup.freeze` of the v2 `frozen` group.
pub const V2_FROZEN_FREEZE: &'static str = "/sys/fs/cgroup/frozen/cgroup.freeze";
/// `cgroup.freeze` of the v2 `unfrozen` group.
pub const V2_UNFROZEN_FREEZE: &'static str = "/sys/fs/cgroup/unfrozen/cgroup.freeze";
/// `cgroup.procs` of the v2 `frozen` group.
pub const V2_FROZEN_PROCS: &'static str = "/sys/fs/cgroup/frozen/cgroup.procs";
/// `cgroup.procs` of the v2 `unfrozen` group.
pub const V2_UNFROZEN_PROCS: &'static str = "/sys/fs/cgroup/unfrozen/cgroup.procs";
/// `cgroup.procs` of the v1 `frozen` group.
pub const V1_FROZEN_PROCS: &'static str = "/dev/freezer/frozen/cgroup.procs";
/// `cgroup.procs` of the v1 `unfrozen` group.
pub const V1_UNFROZEN_PROCS: &'static str = "/dev/freezer/unfrozen/cgroup.procs";

/// For each of the files above, whether it exists.
#[derive(Debug, Clone, Copy, PartialEq, Eq)]
pub struct CgroupMounts {
    pub v2_uid_freeze: bool,
    pub v2_frozen_freeze: bool,
    pub v2_unfrozen_freeze: bool,
    pub v2_frozen_procs: bool,
    pub v2_unfrozen_procs: bool,
    pub v1_frozen_procs: bool,
    pub v1_unfrozen_procs: bool,
}

} // verus!
