//! Choosing the freeze mode from the configured one and the cgroups present.
use vstd::prelude::*;
use crate::mounts::CgroupMounts;
use super::{FreezeMode, PendingHandleList, V1, V2};

verus! {

/// The mode that a request for `req` leaves in place of `cur`: a cgroup mode
/// is taken only when its files exist; `AUTO` takes the first mode that
/// exists, in the order v2 `frozen`/`unfrozen` groups, v2 per-uid groups,
/// v1 groups, `SIGSTOP`.
pub open spec fn chosen_mode(cur: FreezeMode, req: FreezeMode, m: CgroupMounts) -> FreezeMode {
    match req {
        FreezeMode::V1(V1::Frozen) => if m.v1_frozen_procs && m.v1_unfrozen_procs {
            FreezeMode::V1(V1::Frozen)
        } else {
            cur
        },
        FreezeMode::V2(V2::Frozen) => if m.v2_frozen_procs && m.v2_unfrozen_procs {
            FreezeMode::V2(V2::Frozen)
        } else {
            cur
        },
        FreezeMode::V2(V2::Uid) => if m.v2_uid_freeze {
            FreezeMode::V2(V2::Uid)
        } else {
            cur
        },
        FreezeMode::SIGSTOP => FreezeMode::SIGSTOP,
        FreezeMode::AUTO => if m.v2_frozen_procs && m.v2_unfrozen_procs {
            FreezeMode::V2(V2::Frozen)
        } else if m.v2_uid_freeze {
            FreezeMode::V2(V2::Uid)
        } else if m.v1_frozen_procs && m.v1_unfrozen_procs {
            FreezeMode::V1(V1::Frozen)
        } else {
            FreezeMode::SIGSTOP
        },
    }
}

/// `AUTO` never stays `AUTO`, and asking again for the mode it picked keeps it.
pub proof fn law_auto_settles(cur: FreezeMode, m: CgroupMounts)
    ensures
        chosen_mode(cur, FreezeMode::AUTO, m) != FreezeMode::AUTO,
        chosen_mode(
            chosen_mode(cur, FreezeMode::AUTO, m),
            chosen_mode(cur, FreezeMode::AUTO, m),
            m,
        ) == chosen_mode(cur, FreezeMode::AUTO, m),
{
}

/// A cgroup mode is only ever taken when its cgroup files exist: after any
/// request the mode is a cgroup mode only if it already was that mode or its
/// files are present; a request for a cgroup mode whose files are missing
/// leaves the mode as it was; `SIGSTOP` is always taken.
pub proof fn law_mode_needs_files(cur: FreezeMode, req: FreezeMode, m: CgroupMounts)
    ensures
        chosen_mode(cur, req, m) == FreezeMode::V2(V2::Uid) ==> cur == FreezeMode::V2(V2::Uid) || m.v2_uid_freeze,
        chosen_mode(cur, req, m) == FreezeMode::V2(V2::Frozen) ==> cur == FreezeMode::V2(V2::Frozen) || (
        m.v2_frozen_procs && m.v2_unfrozen_procs),
        chosen_mode(cur, req, m) == FreezeMode::V1(V1::Frozen) ==> cur == FreezeMode::V1(V1::Frozen) || (
        m.v1_frozen_procs && m.v1_unfrozen_procs),
        req == FreezeMode::V2(V2::Uid) && !m.v2_uid_freeze ==> chosen_mode(cur, req, m) == cur,
        req == FreezeMode::V2(V2::Frozen) && !(m.v2_frozen_procs && m.v2_unfrozen_procs) ==> chosen_mode(cur, req, m)
            == cur,
        req == FreezeMode::V1(V1::Frozen) && !(m.v1_frozen_procs && m.v1_unfrozen_procs) ==> chosen_mode(cur, req, m)
            == cur,
        req == FreezeMode::V2(V2::Uid) && m.v2_uid_freeze ==> chosen_mode(cur, req, m) == req,
        req == FreezeMode::SIGSTOP ==> chosen_mode(cur, req, m) == FreezeMode::SIGSTOP,
{
}

/// Applies the freeze mode.
pub struct Freezer {
    PendingHandleList: PendingHandleList,
    mode: FreezeMode,
}

impl Freezer {
    pub closed spec fn mode(&self) -> FreezeMode {
        self.mode
    }

    pub closed spec fn pending(&self) -> Set<usize> {
        self.PendingHandleList.members()
    }

    /// A freezer for the given pending uids, in `AUTO` mode.
    pub fn new(PendingHandleList: PendingHandleList) -> (r: Self)
        ensures
            r.mode() == FreezeMode::AUTO,
            r.pending() == PendingHandleList.members(),
    {
        Freezer { PendingHandleList, mode: FreezeMode::AUTO }
    }

    /// Sets the mode to what `mode` asks for, as far as the cgroups in
    /// `mounts` allow it.
    pub fn SetFreezerMode(&mut self, mode: FreezeMode, mounts: &CgroupMounts)
        ensures
            final(self).mode() == chosen_mode(old(self).mode(), mode, *mounts),
            final(self).pending() == old(self).pending(),
    {
        match mode {
            FreezeMode::V1(V1::Frozen) => {
                if mounts.v1_frozen_procs && mounts.v1_unfrozen_procs {
                    self.mode = FreezeMode::V1(V1::Frozen);
                }
            },
            FreezeMode::V2(V2::Frozen) => {
                if mounts.v2_frozen_procs && mounts.v2_unfrozen_procs {
                    self.mode = FreezeMode::V2(V2::Frozen);
                }
            },
            FreezeMode::V2(V2::Uid) => {
                if mounts.v2_uid_freeze {
                    self.mode = FreezeMode::V2(V2::Uid);
                }
            },
            FreezeMode::SIGSTOP => self.mode = FreezeMode::SIGSTOP,
            FreezeMode::AUTO => {
                if mounts.v2_frozen_procs && mounts.v2_unfrozen_procs {
                    self.mode = FreezeMode::V2(V2::Frozen);
                } else if mounts.v2_uid_freeze {
                    self.mode = FreezeMode::V2(V2::Uid);
                } else if mounts.v1_frozen_procs && mounts.v1_unfrozen_procs {
                    self.mode = FreezeMode::V1(V1::Frozen);
                } else {
                    self.mode = FreezeMode::SIGSTOP;
                }
            },
        }
    }

    /// The current mode.
    pub fn current_mode(&self) -> (r: FreezeMode)
        ensures
            r == self.mode(),
    {
        self.mode
    }
}

} // verus!
