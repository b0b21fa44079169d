//! The writes to cgroup files that freeze and thaw processes. Each function
//! returns the writes to make, in order; the caller makes them and stops at
//! the first write whose `check_exists` file is missing, or that fails.
use vstd::prelude::*;
use std::collections::HashSet;
use super::mode::Mode;
use crate::text::strings_view;

pub mod v1;
pub mod v2;

use v1::V1;
use v2::V2;

verus! {

/// Writing `data` to the file at `path`; when `check_exists` is set, a
/// missing file ends the sequence of writes instead.
pub struct WriteOp {
    pub path: String,
    pub data: Vec<u8>,
    pub check_exists: bool,
}

pub type OpView = (Seq<char>, Seq<u8>, bool);

pub open spec fn ops_view(ops: Seq<WriteOp>) -> Seq<OpView> {
    Seq::new(ops.len(), |i: int| (ops[i].path@, ops[i].data@, ops[i].check_exists))
}

/// Whether a write of a plan is made: an unchecked write always is, a checked
/// one only when its file exists.
pub fn may_write(op: &WriteOp, file_exists: bool) -> (b: bool)
    ensures
        b == (!op.check_exists || file_exists),
{
    !op.check_exists || file_exists
}

/// `order` lists the members of `s`, each once.
pub open spec fn enumerates(order: Seq<usize>, s: Set<usize>) -> bool {
    &&& order.no_duplicates()
    &&& order.to_set() == s
    &&& order.len() == s.len()
}

/// The v1 and v2 cgroup writers.
pub struct Cgroup {
    pub v1: V1,
    pub v2: V2,
}

impl Cgroup {
    pub open spec fn v1_state(&self) -> V1 {
        self.v1
    }

    pub open spec fn v2_state(&self) -> V2 {
        self.v2
    }

    pub fn new() -> (r: Self)
        ensures
            r.v1_state().uid() == 0,
            r.v2_state().uid() == 0,
            r.v2_state().mode() is None,
    {
        Cgroup { v1: V1::new(), v2: V2::new() }
    }

    /// The writes that freeze: v1 writes its uid to the v1 `frozen` group,
    /// v2 freezes each path of `freezePath` and moves each uid of `uid` to
    /// the v2 `frozen` group, `SIGSTOP` writes nothing.
    pub fn frozen(&self, mode: Mode, freezePath: &Vec<String>, uid: &HashSet<usize>) -> (r: Vec<
        WriteOp,
    >)
        ensures
            mode == Mode::V1 ==> ops_view(r@) == v1::v1_ops(
                crate::mounts::V1_FROZEN_PROCS@,
                self.v1_state().uid(),
            ),
            mode == Mode::V2 ==> exists|order: Seq<usize>|
                enumerates(order, uid@) && ops_view(r@) == #[trigger] v2::v2_frozen_ops(
                    strings_view(freezePath@),
                    order,
                ),
            mode == Mode::SIGSTOP ==> r@.len() == 0,
    {
        match mode {
            Mode::V1 => self.v1.frozen(),
            Mode::V2 => self.v2.frozen(freezePath, uid),
            Mode::SIGSTOP => Vec::new(),
        }
    }

    /// The writes that thaw: v1 writes its uid to the v1 `frozen` group
    /// (as freezing does), v2 writes 0 to the v1 `unfrozen` group,
    /// `SIGSTOP` writes nothing. The paths and uids are not used.
    pub fn unfrozen(&self, mode: Mode, freezePath: &Vec<String>, uid: &HashSet<usize>) -> (r: Vec<WriteOp>)
        ensures
            mode == Mode::V1 ==> ops_view(r@) == v1::v1_ops(
                crate::mounts::V1_FROZEN_PROCS@,
                self.v1_state().uid(),
            ),
            mode == Mode::V2 ==> ops_view(r@) == v1::v1_ops(crate::mounts::V1_UNFROZEN_PROCS@, 0),
            mode == Mode::SIGSTOP ==> r@.len() == 0,
    {
        match mode {
            Mode::V1 => self.v1.frozen(),
            Mode::V2 => self.v2.unfrozen(),
            Mode::SIGSTOP => Vec::new(),
        }
    }
}

} // verus!
