//! Writes for the cgroup v2 freezer.
use vstd::prelude::*;
use std::collections::HashSet;
use crate::text::{chars_of, string_of};
use super::{enumerates, ops_view, WriteOp, OpView};
use crate::text::strings_view;
use super::v1::{uid_write, v1_ops};
use crate::freezer::mode::V2Mode;

verus! {

broadcast use vstd::std_specs::hash::group_hash_axioms;

/// `"1"` written to each path (checked), then the low byte of each uid of
/// `order` written to the v2 `frozen` group (unchecked).
pub open spec fn v2_frozen_ops(paths: Seq<Seq<char>>, order: Seq<usize>) -> Seq<OpView> {
    Seq::new(paths.len(), |i: int| (paths[i], seq![49u8], true)) + Seq::new(
        order.len(),
        |k: int| (crate::mounts::V2_FROZEN_FREEZE@, seq![(order[k] % 256) as u8], false),
    )
}

/// The cgroup v2 writer.
pub struct V2 {
    uid: usize,
    mode: Option<V2Mode>,
}

impl V2 {
    pub closed spec fn uid(&self) -> usize {
        self.uid
    }

    pub closed spec fn mode(&self) -> Option<V2Mode> {
        self.mode
    }

    pub fn new() -> (r: Self)
        ensures
            r.uid() == 0,
            r.mode() is None,
    {
        V2 { uid: 0, mode: None }
    }

    pub fn set_mode(&mut self, mode: V2Mode)
        ensures
            final(self).mode() == Some(mode),
            final(self).uid() == old(self).uid(),
    {
        match mode {
            V2Mode::Uid => self.mode = Some(V2Mode::Uid),
            V2Mode::Frozen => self.mode = Some(V2Mode::Frozen),
        };
    }

    /// Freezes each path of `path`, then moves each uid of `uid` to the
    /// `frozen` group (in the order the set hands them out).
    pub fn frozen(&self, path: &Vec<String>, uid: &HashSet<usize>) -> (r: Vec<WriteOp>)
        ensures
            exists|order: Seq<usize>|
                enumerates(order, uid@) && ops_view(r@) == #[trigger] v2_frozen_ops(
                    strings_view(path@),
                    order,
                ),
    {
        let ghost paths = strings_view(path@);
        let mut r: Vec<WriteOp> = Vec::new();
        let mut i: usize = 0;
        while i < path.len()
            invariant
                i <= path.len(),
                paths == strings_view(path@),
                r@.len() == i,
                ops_view(r@) =~= Seq::new(i as nat, |j: int| (paths[j], seq![49u8], true)),
            decreases path.len() - i,
        {
            let mut data: Vec<u8> = Vec::new();
            data.push(49u8);
            assert(data@ =~= seq![49u8]);
            let ghost before = r@;
            r.push(WriteOp { path: path[i].clone(), data, check_exists: true });
            assert forall|j: int| 0 <= j < i implies #[trigger] r@[j] == before[j] by {}
            i = i + 1;
            assert(ops_view(r@) =~= Seq::new(i as nat, |j: int| (paths[j], seq![49u8], true))) by {
                assert forall|j: int| 0 <= j < i implies #[trigger] ops_view(r@)[j] == (paths[j], seq![49u8], true) by {
                    if j < i - 1 {
                        assert(ops_view(before)[j] == (paths[j], seq![49u8], true));
                    }
                }
            }
        }
        let ghost first = ops_view(r@);
        let target = chars_of(crate::mounts::V2_FROZEN_FREEZE);
        let mut order_exec: Vec<usize> = Vec::new();
        for u in it: uid.iter()
            invariant
                first.len() == path.len(),
                r@.len() == path.len() + order_exec@.len(),
                first == Seq::new(path.len() as nat, |j: int| (paths[j], seq![49u8], true)),
                target@ == crate::mounts::V2_FROZEN_FREEZE@,
                enumerates(it.seq().unref(), uid@),
                order_exec@ == it.seq().unref().take(it.index() as int),
                it.index() == it.seq().len() ==> order_exec@ == it.seq().unref(),
                ops_view(r@) =~= first + Seq::new(
                    order_exec@.len(),
                    |k: int|
                        (crate::mounts::V2_FROZEN_FREEZE@, seq![(order_exec@[k] % 256) as u8], false),
                ),
        {
            let mut data: Vec<u8> = Vec::new();
            data.push((*u % 256) as u8);
            assert(data@ =~= seq![(*u % 256) as u8]);
            let ghost before = r@;
            r.push(WriteOp { path: string_of(target.as_slice()), data, check_exists: false });
            order_exec.push(*u);
            assert forall|j: int| 0 <= j < before.len() implies #[trigger] ops_view(r@)[j] == ops_view(before)[j] by {
                assert(r@[j] == before[j]);
            }
            assert(it.seq().unref().take(it.index() + 1) =~= order_exec@);
            assert(it.index() + 1 == it.seq().len() ==> it.seq().unref().take(it.index() + 1) =~= it.seq().unref());
        }
        proof {
            let order = order_exec@;
            assert(enumerates(order, uid@));
            assert(ops_view(r@) =~= v2_frozen_ops(paths, order));
        }
        r
    }

    /// Writes 0 to the v1 `unfrozen` group.
    pub fn unfrozen(&self) -> (r: Vec<WriteOp>)
        ensures
            ops_view(r@) == v1_ops(crate::mounts::V1_UNFROZEN_PROCS@, 0),
    {
        uid_write(crate::mounts::V1_UNFROZEN_PROCS, 0)
    }
}

} // verus!
