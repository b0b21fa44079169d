//! The freezer daemon's state: the configured mode, the packages, and the
//! uids waiting to be frozen.
use vstd::prelude::*;
use std::collections::HashSet;
use crate::table::{Pair, PackageTable};
use crate::table::NameSet;

pub mod app;
pub mod config;
pub mod freezer;
pub mod whitelist;

use app::App;
use config::Config;

verus! {

broadcast use vstd::std_specs::hash::group_hash_axioms;

/// How processes are frozen.
#[derive(Debug, Clone, Copy, PartialEq, Eq, Structural)]
pub enum FreezeMode {
    V1(V1),
    V2(V2),
    SIGSTOP,
    AUTO,
}

/// Cgroup v1 freezer variants.
#[derive(Debug, Clone, Copy, PartialEq, Eq, Structural)]
pub enum V1 {
    Frozen,
}

/// Cgroup v2 freezer variants.
#[derive(Debug, Clone, Copy, PartialEq, Eq, Structural)]
pub enum V2 {
    Uid,
    Frozen,
}

/// The uids that are waiting to be frozen.
pub struct PendingHandleList {
    list: HashSet<usize>,
}

impl PendingHandleList {
    pub closed spec fn members(&self) -> Set<usize> {
        self.list@
    }

    pub fn new() -> (r: Self)
        ensures
            r.members() == Set::<usize>::empty(),
    {
        PendingHandleList { list: HashSet::new() }
    }

    pub fn add(&mut self, uid: usize)
        ensures
            final(self).members() == old(self).members().insert(uid),
    {
        self.list.insert(uid);
    }

    pub fn remove(&mut self, uid: usize)
        ensures
            final(self).members() == old(self).members().remove(uid),
    {
        self.list.remove(&uid);
    }

    pub fn contains(&self, uid: usize) -> (b: bool)
        ensures
            b == self.members().contains(uid),
    {
        self.list.contains(&uid)
    }

    /// The uids, as a set.
    pub fn list(&self) -> (r: &HashSet<usize>)
        ensures
            r@ == self.members(),
    {
        &self.list
    }
}

// ---------------------------------------------------------------------------
// Updating the pending list
// ---------------------------------------------------------------------------

/// One background uid `b` met against each visible entry in turn: the same
/// uid is taken off the list, a different one puts `b` on it.
pub open spec fn update_inner(list: Set<usize>, b: usize, vis: Seq<Pair>) -> Set<usize>
    decreases vis.len(),
{
    if vis.len() == 0 {
        list
    } else {
        let l = update_inner(list, b, vis.drop_last());
        let vu = vis.last().1;
        if b == vu {
            l.remove(vu)
        } else {
            l.insert(b)
        }
    }
}

/// Every background entry in turn, each against every visible entry.
pub open spec fn update_outer(list: Set<usize>, bg: Seq<Pair>, vis: Seq<Pair>) -> Set<usize>
    decreases bg.len(),
{
    if bg.len() == 0 {
        list
    } else {
        update_inner(update_outer(list, bg.drop_last(), vis), bg.last().1, vis)
    }
}

/// The uids that occur in some entry.
pub open spec fn uids_of(p: Seq<Pair>) -> Set<usize> {
    Set::new(|u: usize| exists|i: int| 0 <= i < p.len() && #[trigger] p[i].1 == u)
}

proof fn lemma_inner_other(list: Set<usize>, b: usize, vis: Seq<Pair>, u: usize)
    requires
        u != b,
    ensures
        update_inner(list, b, vis).contains(u) == list.contains(u),
    decreases vis.len(),
{
    if vis.len() > 0 {
        lemma_inner_other(list, b, vis.drop_last(), u);
    }
}

proof fn lemma_inner_added(list: Set<usize>, b: usize, vis: Seq<Pair>)
    requires
        vis.len() > 0,
        !uids_of(vis).contains(b),
    ensures
        update_inner(list, b, vis).contains(b),
{
    assert(vis[vis.len() - 1].1 == vis.last().1);
}

proof fn lemma_inner_bound(list: Set<usize>, b: usize, vis: Seq<Pair>)
    ensures
        update_inner(list, b, vis).subset_of(list.insert(b)),
    decreases vis.len(),
{
    if vis.len() > 0 {
        lemma_inner_bound(list, b, vis.drop_last());
    }
}

proof fn lemma_inner_no_vis(list: Set<usize>, b: usize, vis: Seq<Pair>)
    requires
        !uids_of(vis).contains(b),
        list.contains(b),
    ensures
        update_inner(list, b, vis).contains(b),
    decreases vis.len(),
{
    if vis.len() > 0 {
        let d = vis.drop_last();
        assert(!uids_of(d).contains(b)) by {
            if uids_of(d).contains(b) {
                let i = choose|i: int| 0 <= i < d.len() && #[trigger] d[i].1 == b;
                assert(vis[i].1 == b);
            }
        }
        lemma_inner_no_vis(list, b, d);
        assert(vis[vis.len() - 1].1 == vis.last().1);
    }
}

/// With no visible package the pending list does not change.
pub proof fn law_update_no_visible(list: Set<usize>, bg: Seq<Pair>)
    ensures
        update_outer(list, bg, Seq::<Pair>::empty()) == list,
    decreases bg.len(),
{
    if bg.len() > 0 {
        law_update_no_visible(list, bg.drop_last());
    }
}

/// A uid that no background entry carries keeps its place (on or off the list).
pub proof fn law_update_untouched(list: Set<usize>, bg: Seq<Pair>, vis: Seq<Pair>, u: usize)
    requires
        !uids_of(bg).contains(u),
    ensures
        update_outer(list, bg, vis).contains(u) == list.contains(u),
    decreases bg.len(),
{
    if bg.len() > 0 {
        let d = bg.drop_last();
        assert(!uids_of(d).contains(u)) by {
            if uids_of(d).contains(u) {
                let i = choose|i: int| 0 <= i < d.len() && #[trigger] d[i].1 == u;
                assert(bg[i].1 == u);
            }
        }
        law_update_untouched(list, d, vis, u);
        assert(bg[bg.len() - 1].1 == bg.last().1);
        lemma_inner_other(update_outer(list, d, vis), bg.last().1, vis, u);
    }
}

/// When something is visible, a background uid that no visible entry
/// carries ends on the list.
pub proof fn law_update_background_pending(list: Set<usize>, bg: Seq<Pair>, vis: Seq<Pair>, u: usize)
    requires
        vis.len() > 0,
        uids_of(bg).contains(u),
        !uids_of(vis).contains(u),
    ensures
        update_outer(list, bg, vis).contains(u),
    decreases bg.len(),
{
    let d = bg.drop_last();
    let b = bg.last().1;
    assert(bg[bg.len() - 1].1 == b);
    let prev = update_outer(list, d, vis);
    if b == u {
        lemma_inner_added(prev, b, vis);
    } else {
        assert(uids_of(d).contains(u)) by {
            let i = choose|i: int| 0 <= i < bg.len() && #[trigger] bg[i].1 == u;
            assert(d[i].1 == u);
        }
        law_update_background_pending(list, d, vis, u);
        lemma_inner_other(prev, b, vis, u);
    }
}

/// Only background uids are ever added to the list.
pub proof fn law_update_bound(list: Set<usize>, bg: Seq<Pair>, vis: Seq<Pair>)
    ensures
        update_outer(list, bg, vis).subset_of(list.union(uids_of(bg))),
    decreases bg.len(),
{
    if bg.len() > 0 {
        let d = bg.drop_last();
        law_update_bound(list, d, vis);
        let prev = update_outer(list, d, vis);
        lemma_inner_bound(prev, bg.last().1, vis);
        assert(bg[bg.len() - 1].1 == bg.last().1);
        assert forall|u: usize| #[trigger] uids_of(d).contains(u) implies uids_of(bg).contains(u) by {
            let i = choose|i: int| 0 <= i < d.len() && #[trigger] d[i].1 == u;
            assert(bg[i].1 == u);
        }
    }
}

// ---------------------------------------------------------------------------
// Freeze
// ---------------------------------------------------------------------------

/// The daemon: packages, configuration and the uids waiting to be frozen.
pub struct Freeze {
    mode: Option<FreezeMode>,
    pub app: App,
    pub config: Config,
    PendingHandleList: PendingHandleList,
}

impl Freeze {
    pub closed spec fn pending(&self) -> Set<usize> {
        self.PendingHandleList.members()
    }

    pub closed spec fn chosen_mode(&self) -> Option<FreezeMode> {
        self.mode
    }

    pub closed spec fn app_state(&self) -> App {
        self.app
    }

    pub closed spec fn config_state(&self) -> Config {
        self.config
    }

    /// A daemon for the packages of `app`, with no mode chosen, the
    /// configuration at `AUTO` with an empty whitelist, and nothing pending.
    pub fn new(app: App) -> (r: Self)
        ensures
            r.app_state() == app,
            r.chosen_mode() is None,
            r.config_state().mode == FreezeMode::AUTO,
            r.config_state().whitelist.seq() == Seq::<Seq<char>>::empty(),
            r.pending() == Set::<usize>::empty(),
    {
        Freeze {
            app,
            mode: None,
            config: Config { mode: FreezeMode::AUTO, whitelist: NameSet::new() },
            PendingHandleList: PendingHandleList::new(),
        }
    }

    /// Meets every background package with every visible one: a background
    /// uid equal to the visible uid is taken off the pending list, a
    /// different one is put on it.
    pub fn UpdateAppProcess(&mut self, BackGroundPackages: PackageTable, VisiblePackage: PackageTable)
        ensures
            final(self).pending() == update_outer(
                old(self).pending(),
                BackGroundPackages.pairs(),
                VisiblePackage.pairs(),
            ),
            final(self).app_state() == old(self).app_state(),
            final(self).config_state() == old(self).config_state(),
            final(self).chosen_mode() == old(self).chosen_mode(),
    {
        let ghost start = self.PendingHandleList.members();
        let ghost bg = BackGroundPackages.pairs();
        let ghost vis = VisiblePackage.pairs();
        let mut i: usize = 0;
        assert(bg.take(0) =~= Seq::<Pair>::empty());
        while i < BackGroundPackages.len()
            invariant
                i <= bg.len(),
                bg == BackGroundPackages.pairs(),
                vis == VisiblePackage.pairs(),
                self.PendingHandleList.members() == update_outer(start, bg.take(i as int), vis),
                self.app == old(self).app,
                self.config == old(self).config,
                self.mode == old(self).mode,
            decreases bg.len() - i,
        {
            let b = BackGroundPackages.value_at(i);
            let ghost before = self.PendingHandleList.members();
            let mut j: usize = 0;
            assert(vis.take(0) =~= Seq::<Pair>::empty());
            while j < VisiblePackage.len()
                invariant
                    j <= vis.len(),
                    i < bg.len(),
                    b == bg[i as int].1,
                    bg == BackGroundPackages.pairs(),
                    vis == VisiblePackage.pairs(),
                    self.PendingHandleList.members() == update_inner(before, b, vis.take(j as int)),
                    self.app == old(self).app,
                    self.config == old(self).config,
                    self.mode == old(self).mode,
                decreases vis.len() - j,
            {
                let vu = VisiblePackage.value_at(j);
                assert(vis.take(j + 1).drop_last() =~= vis.take(j as int));
                if b == vu {
                    self.PendingHandleList.remove(vu);
                } else {
                    self.PendingHandleList.add(b);
                }
                j = j + 1;
            }
            assert(vis.take(j as int) =~= vis);
            assert(bg.take(i + 1).drop_last() =~= bg.take(i as int));
            i = i + 1;
        }
        assert(bg.take(i as int) =~= bg);
    }

    /// The uids waiting to be frozen.
    pub fn pending_list(&self) -> (r: &HashSet<usize>)
        ensures
            r@ == self.pending(),
    {
        self.PendingHandleList.list()
    }
}

} // verus!
