//! Writes for the cgroup v1 freezer.
use vstd::prelude::*;
use crate::text::string_of;
use crate::text::chars_of;
use super::{ops_view, WriteOp, OpView};

verus! {

/// A single checked write of the low byte of `uid` to `path`.
pub open spec fn v1_ops(path: Seq<char>, uid: usize) -> Seq<OpView> {
    seq![(path, seq![(uid % 256) as u8], true)]
}

/// A checked write of the low byte of `uid` to `path`.
pub fn uid_write(path: &str, uid: usize) -> (r: Vec<WriteOp>)
    ensures
        ops_view(r@) == v1_ops(path@, uid),
{
    let mut data: Vec<u8> = Vec::new();
    data.push((uid % 256) as u8);
    let mut r: Vec<WriteOp> = Vec::new();
    r.push(WriteOp { path: string_of(chars_of(path).as_slice()), data, check_exists: true });
    assert(ops_view(r@) =~= v1_ops(path@, uid));
    r
}

/// The cgroup v1 writer.
pub struct V1 {
    uid: usize,
}

impl V1 {
    pub closed spec fn uid(&self) -> usize {
        self.uid
    }

    pub fn new() -> (r: Self)
        ensures
            r.uid() == 0,
    {
        V1 { uid: 0 }
    }

    /// Writes the uid to the v1 `frozen` group.
    pub fn frozen(&self) -> (r: Vec<WriteOp>)
        ensures
            ops_view(r@) == v1_ops(crate::mounts::V1_FROZEN_PROCS@, self.uid()),
    {
        uid_write(crate::mounts::V1_FROZEN_PROCS, self.uid)
    }

    /// Writes the uid to the v1 `unfrozen` group.
    pub fn unfrozen(&self) -> (r: Vec<WriteOp>)
        ensures
            ops_view(r@) == v1_ops(crate::mounts::V1_UNFROZEN_PROCS@, self.uid()),
    {
        uid_write(crate::mounts::V1_UNFROZEN_PROCS, self.uid)
    }
}

} // verus!
