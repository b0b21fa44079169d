//! The freezer: finds the apps on screen, keeps the uids to freeze, picks the
//! cgroup mechanism and plans the writes that freeze.
use vstd::prelude::*;
use std::collections::HashSet;
use crate::mounts::CgroupMounts;
use crate::pattern::{capture_group, group_of, regex_captures, COMPONENT_PATTERN};
use crate::table::{pairs_get, Pair, NameSet};
use crate::text::{
    chars_of, concat_chars, contains_exec, contains_sub, decimal, decimal_exec, lines_exec, lines_of,
    starts_with, starts_with_exec, string_of,
};

pub mod app;
pub mod cgroup;
pub mod config;
pub mod mode;

use app::{App, uids_of_names};
use cgroup::{Cgroup, WriteOp, ops_view, enumerates};
use crate::text::strings_view;
use mode::{Mode, V1Mode, V2Mode};

verus! {

broadcast use vstd::std_specs::hash::group_hash_axioms;

/// The uids waiting to be frozen.
pub struct PendingHandleList {
    list: HashSet<usize>,
}

impl PendingHandleList {
    pub closed spec fn members(&self) -> Set<usize> {
        self.list@
    }

    pub fn new() -> (r: Self)
        ensures
            r.members() == Set::<usize>::empty(),
    {
        PendingHandleList { list: HashSet::new() }
    }

    pub fn erase(&mut self, uid: usize)
        ensures
            final(self).members() == old(self).members().remove(uid),
    {
        self.list.remove(&uid);
    }

    pub fn add(&mut self, uid: usize)
        ensures
            final(self).members() == old(self).members().insert(uid),
    {
        self.list.insert(uid);
    }

    pub fn contains(&self, uid: usize) -> (b: bool)
        ensures
            b == self.members().contains(uid),
    {
        self.list.contains(&uid)
    }
}

/// What to freeze for one pending uid.
pub enum FreezeTarget {
    /// Every `pid_*` entry of this per-uid cgroup directory.
    UidGroup(String),
    /// This file (empty when there is none).
    Path(String),
}

pub open spec fn target_view(t: FreezeTarget) -> (bool, Seq<char>) {
    match t {
        FreezeTarget::UidGroup(d) => (true, d@),
        FreezeTarget::Path(p) => (false, p@),
    }
}

/// The per-uid cgroup directory of `uid`.
pub open spec fn uid_dir(uid: usize) -> Seq<char> {
    "/sys/fs/cgroup/uid_"@ + decimal(uid as nat) + "/"@
}

/// The target of one uid in the given mode.
pub open spec fn target_of(mode: Mode, v2: Option<V2Mode>, uid: usize) -> (bool, Seq<char>) {
    match mode {
        Mode::V2 => match v2 {
            Some(V2Mode::Uid) => (true, uid_dir(uid)),
            Some(V2Mode::Frozen) => (false, crate::mounts::V2_FROZEN_FREEZE@),
            None => (false, Seq::<char>::empty()),
        },
        Mode::V1 => (false, crate::mounts::V1_FROZEN_PROCS@),
        Mode::SIGSTOP => (false, Seq::<char>::empty()),
    }
}

/// The uid that one line of `cmd activity stack list` shows on screen: that of
/// a known, non-whitelisted package with a visible task.
pub open spec fn visible_uid(line: Seq<char>, pkgs: Seq<Pair>, wl: Set<usize>) -> Option<usize> {
    let pkg = group_of(regex_captures(COMPONENT_PATTERN@, line), 1);
    if starts_with(line, "  taskId="@) && contains_sub(line, "visible=true"@) && pkg is Some
        && pairs_get(pkgs, pkg->0) is Some && !wl.contains(pairs_get(pkgs, pkg->0)->0) {
        Some(pairs_get(pkgs, pkg->0)->0)
    } else {
        None
    }
}

/// One line of `cmd activity stack list`: a visible task of a known,
/// non-whitelisted package adds its uid.
pub open spec fn visible_line(acc: Set<usize>, line: Seq<char>, pkgs: Seq<Pair>, wl: Set<usize>) -> Set<usize> {
    match visible_uid(line, pkgs, wl) {
        Some(u) => acc.insert(u),
        None => acc,
    }
}

pub open spec fn visible_lines(lines: Seq<Seq<char>>, pkgs: Seq<Pair>, wl: Set<usize>) -> Set<usize>
    decreases lines.len(),
{
    if lines.len() == 0 {
        Set::<usize>::empty()
    } else {
        visible_line(visible_lines(lines.drop_last(), pkgs, wl), lines.last(), pkgs, wl)
    }
}

/// The uids of the installed, non-whitelisted packages.
pub open spec fn app_uids(pkgs: Seq<Pair>, wl: Set<usize>) -> Set<usize> {
    Set::new(|u: usize| !wl.contains(u) && exists|i: int| 0 <= i < pkgs.len() && #[trigger] pkgs[i].1 == u)
}

/// The uids found on screen are exactly those that some line shows.
pub proof fn law_visible_lines(lines: Seq<Seq<char>>, pkgs: Seq<Pair>, wl: Set<usize>)
    ensures
        forall|u: usize|
            #[trigger] visible_lines(lines, pkgs, wl).contains(u) <==> exists|k: int|
                0 <= k < lines.len() && visible_uid(#[trigger] lines[k], pkgs, wl) == Some(u),
    decreases lines.len(),
{
    if lines.len() > 0 {
        let d = lines.drop_last();
        law_visible_lines(d, pkgs, wl);
        assert forall|u: usize|
            #[trigger] visible_lines(lines, pkgs, wl).contains(u) <==> exists|k: int|
                0 <= k < lines.len() && visible_uid(#[trigger] lines[k], pkgs, wl) == Some(u) by {
            if visible_lines(lines, pkgs, wl).contains(u) {
                if visible_lines(d, pkgs, wl).contains(u) {
                    let k = choose|k: int| 0 <= k < d.len() && visible_uid(#[trigger] d[k], pkgs, wl) == Some(u);
                    assert(lines[k] == d[k]);
                } else {
                    assert(lines[lines.len() - 1] == lines.last());
                }
            }
            if exists|k: int| 0 <= k < lines.len() && visible_uid(#[trigger] lines[k], pkgs, wl) == Some(u) {
                let k = choose|k: int| 0 <= k < lines.len() && visible_uid(#[trigger] lines[k], pkgs, wl) == Some(u);
                if k < lines.len() - 1 {
                    assert(d[k] == lines[k]);
                    assert(visible_lines(d, pkgs, wl).contains(u));
                } else {
                    assert(lines[k] == lines.last());
                }
            }
        }
    }
}

/// Every uid found on screen is that of an installed, non-whitelisted package.
pub proof fn law_visible_known(lines: Seq<Seq<char>>, pkgs: Seq<Pair>, wl: Set<usize>)
    ensures
        visible_lines(lines, pkgs, wl).subset_of(app_uids(pkgs, wl)),
    decreases lines.len(),
{
    if lines.len() > 0 {
        law_visible_known(lines.drop_last(), pkgs, wl);
        let pkg = group_of(regex_captures(COMPONENT_PATTERN@, lines.last()), 1);
        if pkg is Some && pairs_get(pkgs, pkg->0) is Some {
            crate::table::lemma_key_index(pkgs, pkg->0);
        }
    }
}

/// The `pid_*` entries of a directory listing, by position.
pub open spec fn pid_entries_of(names: Seq<Seq<char>>) -> Seq<usize>
    decreases names.len(),
{
    if names.len() == 0 {
        Seq::<usize>::empty()
    } else if starts_with(names.last(), "pid_"@) {
        pid_entries_of(names.drop_last()).push((names.len() - 1) as usize)
    } else {
        pid_entries_of(names.drop_last())
    }
}

/// (mode, v2 variant, v1 variant) after looking at the cgroups: per-uid v2
/// groups first, then the v2 `frozen`/`unfrozen` groups, then v1; with none
/// of them nothing changes.
pub open spec fn detected(cur: (Option<Mode>, Option<V2Mode>, Option<V1Mode>), m: CgroupMounts) -> (
    Option<Mode>,
    Option<V2Mode>,
    Option<V1Mode>,
) {
    if m.v2_uid_freeze {
        (Some(Mode::V2), Some(V2Mode::Uid), cur.2)
    } else if m.v2_frozen_freeze && m.v2_unfrozen_freeze {
        (Some(Mode::V2), Some(V2Mode::Frozen), cur.2)
    } else if m.v1_frozen_procs && m.v1_unfrozen_procs {
        (Some(Mode::V1), cur.1, Some(V1Mode::Frozen))
    } else {
        cur
    }
}

/// The pending list after the apps in `visible` came on screen: with exactly
/// one visible app it leaves the list, otherwise all of them join it.
pub open spec fn after_visible(list: Set<usize>, visible: Set<usize>) -> Set<usize> {
    if visible.len() == 1 {
        list.remove(visible.choose())
    } else {
        list.union(visible)
    }
}

/// Detection prefers the per-uid v2 groups: when `uid_0/cgroup.freeze`
/// exists they are chosen whatever else exists. The shared v2 groups come
/// next, then v1; a mode is only ever chosen when its files exist, and the
/// variant of the other cgroup version is left as it was.
pub proof fn law_detection_order(cur: (Option<Mode>, Option<V2Mode>, Option<V1Mode>), m: CgroupMounts)
    ensures
        m.v2_uid_freeze ==> detected(cur, m) == (Some(Mode::V2), Some(V2Mode::Uid), cur.2),
        !m.v2_uid_freeze && m.v2_frozen_freeze && m.v2_unfrozen_freeze ==> detected(cur, m) == (
            Some(Mode::V2),
            Some(V2Mode::Frozen),
            cur.2,
        ),
        detected(cur, m).1 == Some(V2Mode::Uid) ==> cur.1 == Some(V2Mode::Uid) || m.v2_uid_freeze,
        detected(cur, m).1 == Some(V2Mode::Frozen) ==> cur.1 == Some(V2Mode::Frozen) || (m.v2_frozen_freeze
            && m.v2_unfrozen_freeze),
        detected(cur, m).2 == Some(V1Mode::Frozen) ==> cur.2 == Some(V1Mode::Frozen) || (m.v1_frozen_procs
            && m.v1_unfrozen_procs),
        !m.v2_uid_freeze && !(m.v2_frozen_freeze && m.v2_unfrozen_freeze) && !(m.v1_frozen_procs
            && m.v1_unfrozen_procs) ==> detected(cur, m) == cur,
{
}

/// Tracking the apps on screen never drops a pending uid that is not on
/// screen; with other than exactly one app on screen every one of them
/// becomes pending, and with exactly one that one leaves the list.
pub proof fn law_after_visible(list: Set<usize>, visible: Set<usize>)
    requires
        visible.finite(),
    ensures
        forall|u: usize| list.contains(u) && !visible.contains(u) ==> #[trigger] after_visible(list, visible).contains(u),
        visible.len() != 1 ==> forall|u: usize| #[trigger] visible.contains(u) ==> after_visible(list, visible).contains(u),
        visible.len() != 1 ==> forall|u: usize| #[trigger] after_visible(list, visible).contains(u) ==> list.contains(u) || visible.contains(u),
        visible.len() == 1 ==> forall|u: usize| #[trigger] visible.contains(u) ==> after_visible(list, visible) == list.remove(u),
{
    if visible.len() == 1 {
        Set::lemma_is_singleton(visible);
        assert(visible.contains(visible.choose()));
    }
}

pub struct Freezer {
    app: App,
    mode: Option<Mode>,
    v2: Option<V2Mode>,
    v1: Option<V1Mode>,
    cgroup: Cgroup,
    pendingHandleList: PendingHandleList,
}

impl Freezer {
    pub closed spec fn app_state(&self) -> App {
        self.app
    }

    pub closed spec fn modes(&self) -> (Option<Mode>, Option<V2Mode>, Option<V1Mode>) {
        (self.mode, self.v2, self.v1)
    }

    pub closed spec fn cgroup_state(&self) -> Cgroup {
        self.cgroup
    }

    pub closed spec fn pending(&self) -> Set<usize> {
        self.pendingHandleList.members()
    }

    /// A freezer for the packages of `app`, with no mode detected and nothing pending.
    pub fn new(app: App) -> (r: Self)
        ensures
            r.app_state() == app,
            r.modes() == (None::<Mode>, None::<V2Mode>, None::<V1Mode>),
            r.pending() == Set::<usize>::empty(),
            r.cgroup_state().v1_state().uid() == 0,
            r.cgroup_state().v2_state().uid() == 0,
            r.cgroup_state().v2_state().mode() is None,
    {
        Freezer {
            app,
            mode: None,
            v2: None,
            v1: None,
            cgroup: Cgroup::new(),
            pendingHandleList: PendingHandleList::new(),
        }
    }

    /// The packages.
    pub fn app(&self) -> (r: &App)
        ensures
            *r == self.app_state(),
    {
        &self.app
    }

    /// Whitelists the configured packages; every one of them must be installed.
    pub fn add_whitelist(&mut self, packages: &NameSet)
        requires
            forall|n: Seq<char>| #[trigger] packages.set().contains(n) ==> pairs_get(old(self).app_state().packages(), n) is Some,
        ensures
            final(self).app_state().whitelisted() == old(self).app_state().whitelisted().union(
                uids_of_names(packages.set(), old(self).app_state().packages()),
            ),
            forall|n: Seq<char>| #[trigger] packages.set().contains(n) ==> final(self).app_state().whitelisted().contains(
                pairs_get(old(self).app_state().packages(), n)->0,
            ),
            final(self).app_state().packages() == old(self).app_state().packages(),
            final(self).app_state().pids() == old(self).app_state().pids(),
            final(self).modes() == old(self).modes(),
            final(self).pending() == old(self).pending(),
            final(self).cgroup_state() == old(self).cgroup_state(),
    {
        self.app.add_whitelist(packages);
    }

    /// The uids of the non-whitelisted packages with a visible task in the
    /// output of `cmd activity stack list`.
    pub fn get_visible_app(&self, output: &str) -> (r: HashSet<usize>)
        ensures
            r@ == visible_lines(lines_of(output@), self.app_state().packages(), self.app_state().whitelisted()),
    {
        let text = chars_of(output);
        let lines = lines_exec(&text);
        let ghost ls = lines_of(text@);
        let ghost pkgs = self.app.packages();
        let ghost wl = self.app.whitelisted();
        let task_prefix = chars_of("  taskId=");
        let vis_true = chars_of("visible=true");
        let mut cur: HashSet<usize> = HashSet::new();
        let mut k: usize = 0;
        assert(ls.take(0) =~= Seq::<Seq<char>>::empty());
        while k < lines.len()
            invariant
                k <= lines.len(),
                lines.len() == ls.len(),
                ls == lines_of(output@),
                forall|j: int| 0 <= j < lines.len() ==> (#[trigger] lines[j])@ == ls[j],
                task_prefix@ == "  taskId="@,
                vis_true@ == "visible=true"@,
                pkgs == self.app.packages(),
                wl == self.app.whitelisted(),
                cur@ == visible_lines(ls.take(k as int), pkgs, wl),
            decreases lines.len() - k,
        {
            let line = &lines[k];
            assert(ls.take(k + 1).drop_last() =~= ls.take(k as int));
            assert(ls.take(k + 1).last() == line@);
            if starts_with_exec(line, &task_prefix) && contains_exec(line, &vis_true) {
                let line_str = string_of(line.as_slice());
                match capture_group(COMPONENT_PATTERN, line_str.as_str(), 1) {
                    Some(pkg) => {
                        if self.app.contains(pkg.as_str()) {
                            let uid = self.app.get_uid(pkg.as_str());
                            if !self.app.is_whitelist(uid) {
                                cur.insert(uid);
                            }
                        }
                    },
                    None => {},
                }
            }
            k = k + 1;
        }
        assert(ls.take(k as int) =~= ls);
        cur
    }

    /// Picks the cgroup mechanism from the files in `mounts`.
    pub fn check_cgroup(&mut self, mounts: &CgroupMounts)
        ensures
            final(self).modes() == detected(old(self).modes(), *mounts),
            final(self).app_state() == old(self).app_state(),
            final(self).cgroup_state() == old(self).cgroup_state(),
            final(self).pending() == old(self).pending(),
    {
        if mounts.v2_uid_freeze {
            self.mode = Some(Mode::V2);
            self.v2 = Some(V2Mode::Uid);
            return;
        }
        if mounts.v2_frozen_freeze && mounts.v2_unfrozen_freeze {
            self.mode = Some(Mode::V2);
            self.v2 = Some(V2Mode::Frozen);
            return;
        }
        if mounts.v1_frozen_procs && mounts.v1_unfrozen_procs {
            self.mode = Some(Mode::V1);
            self.v1 = Some(V1Mode::Frozen);
            return;
        }
    }

    /// Picks the cgroup mechanism and, for cgroup v2, tells the v2 writer
    /// which variant is in use.
    pub fn prepare_cgroup(&mut self, mounts: &CgroupMounts)
        ensures
            final(self).modes() == detected(old(self).modes(), *mounts),
            final(self).modes().0 == Some(Mode::V2) && final(self).modes().1 is Some
                ==> final(self).cgroup_state().v2_state().mode() == final(self).modes().1,
            !(final(self).modes().0 == Some(Mode::V2) && final(self).modes().1 is Some)
                ==> final(self).cgroup_state() == old(self).cgroup_state(),
            final(self).cgroup_state().v1_state() == old(self).cgroup_state().v1_state(),
            final(self).cgroup_state().v2_state().uid() == old(self).cgroup_state().v2_state().uid(),
            final(self).app_state() == old(self).app_state(),
            final(self).pending() == old(self).pending(),
    {
        self.check_cgroup(mounts);
        match self.mode {
            Some(Mode::V2) => match self.v2 {
                Some(v2) => self.cgroup.v2.set_mode(v2),
                None => {},
            },
            _ => {},
        }
    }

    /// Updates the pending list with the uids now on screen.
    pub fn track_visible(&mut self, visible: &HashSet<usize>)
        ensures
            final(self).pending() == after_visible(old(self).pending(), visible@),
            final(self).app_state() == old(self).app_state(),
            final(self).modes() == old(self).modes(),
            final(self).cgroup_state() == old(self).cgroup_state(),
    {
        let ghost start = self.pendingHandleList.members();
        if visible.len() == 1 {
            for i in it: visible.iter()
                invariant
                    visible@.len() == 1,
                    enumerates(it.seq().unref(), visible@),
                    self.app == old(self).app,
                    self.mode == old(self).mode,
                    self.v1 == old(self).v1,
                    self.v2 == old(self).v2,
                    self.cgroup == old(self).cgroup,
                    it.index() == 0 ==> self.pendingHandleList.members() == start,
                    it.index() == 1 ==> self.pendingHandleList.members() == start.remove(
                        visible@.choose(),
                    ),
            {
                proof {
                    vstd::seq_lib::seq_to_set_is_finite(it.seq().unref());
                    Set::lemma_is_singleton(visible@);
                    assert(it.seq().unref().to_set().contains(*i)) by {
                        assert(it.seq().unref()[it.index()] == *i);
                    }
                    assert(visible@.contains(visible@.choose()));
                    assert(visible@.choose() == *i);
                }
                self.pendingHandleList.add(*i);
                self.pendingHandleList.erase(*i);
                assert(self.pendingHandleList.members() =~= start.remove(visible@.choose()));
            }
        } else {
            for i in it: visible.iter()
                invariant
                    enumerates(it.seq().unref(), visible@),
                    self.app == old(self).app,
                    self.mode == old(self).mode,
                    self.v1 == old(self).v1,
                    self.v2 == old(self).v2,
                    self.cgroup == old(self).cgroup,
                    self.pendingHandleList.members() == start.union(
                        it.seq().unref().take(it.index()).to_set(),
                    ),
                    it.index() == it.seq().len() ==> it.seq().unref().take(it.index()).to_set()
                        == visible@,
            {
                let ghost before = it.seq().unref().take(it.index());
                self.pendingHandleList.add(*i);
                proof {
                    assert(it.seq().unref().take(it.index() + 1) =~= before.push(*i));
                    assert(it.seq().unref().take(it.index() + 1).to_set() =~= before.to_set().insert(*i)) by {
                        assert forall|x: usize| #[trigger] before.push(*i).contains(x) == (before.contains(x) || x == *i) by {
                            if before.contains(x) {
                                let j = choose|j: int| 0 <= j < before.len() && before[j] == x;
                                assert(before.push(*i)[j] == x);
                            }
                            if x == *i {
                                assert(before.push(*i)[before.len() as int] == x);
                            }
                        }
                    }
                    assert(it.index() + 1 == it.seq().len() ==> it.seq().unref().take(it.index() + 1) =~= it.seq().unref());
                }
                assert(self.pendingHandleList.members() =~= start.union(
                    it.seq().unref().take(it.index() + 1).to_set(),
                ));
            }
        }
    }

    /// What to freeze for each pending uid (in the order the list hands them
    /// out), and the mode to freeze with; with no mode detected, `SIGSTOP`.
    pub fn freeze_targets(&self) -> (r: (Mode, Vec<FreezeTarget>))
        ensures
            r.0 == match self.modes().0 {
                Some(m) => m,
                None => Mode::SIGSTOP,
            },
            exists|order: Seq<usize>|
                #[trigger] enumerates(order, self.pending()) && r.1@.len() == order.len() && forall|k: int|
                    0 <= k < order.len() ==> target_view(#[trigger] r.1@[k]) == target_of(
                        r.0,
                        self.modes().1,
                        order[k],
                    ),
    {
        let mode = match self.mode {
            Some(s) => s,
            None => Mode::SIGSTOP,
        };
        let prefix = chars_of("/sys/fs/cgroup/uid_");
        let slash = chars_of("/");
        let mut targets: Vec<FreezeTarget> = Vec::new();
        let mut order_exec: Vec<usize> = Vec::new();
        for i in it: self.pendingHandleList.list.iter()
            invariant
                prefix@ == "/sys/fs/cgroup/uid_"@,
                slash@ == "/"@,
                enumerates(it.seq().unref(), self.pendingHandleList.members()),
                order_exec@ == it.seq().unref().take(it.index() as int),
                it.index() == it.seq().len() ==> order_exec@ == it.seq().unref(),
                targets@.len() == order_exec@.len(),
                forall|k: int|
                    0 <= k < order_exec@.len() ==> target_view(#[trigger] targets@[k]) == target_of(
                        mode,
                        self.v2,
                        order_exec@[k],
                    ),
        {
            let uid = *i;
            let t = match mode {
                Mode::V2 => match self.v2 {
                    Some(V2Mode::Uid) => {
                        let d = concat_chars(&concat_chars(&prefix, &decimal_exec(uid)), &slash);
                        FreezeTarget::UidGroup(string_of(d.as_slice()))
                    },
                    Some(V2Mode::Frozen) => FreezeTarget::Path(
                        string_of(chars_of(crate::mounts::V2_FROZEN_FREEZE).as_slice()),
                    ),
                    None => FreezeTarget::Path(String::new()),
                },
                Mode::V1 => FreezeTarget::Path(
                    string_of(chars_of(crate::mounts::V1_FROZEN_PROCS).as_slice()),
                ),
                Mode::SIGSTOP => FreezeTarget::Path(String::new()),
            };
            assert(target_view(t) == target_of(mode, self.v2, uid));
            targets.push(t);
            order_exec.push(uid);
            assert(it.seq().unref().take(it.index() + 1) =~= order_exec@);
            assert(it.index() + 1 == it.seq().len() ==> it.seq().unref().take(it.index() + 1)
                =~= it.seq().unref());
        }
        proof {
            assert(enumerates(order_exec@, self.pending()));
        }
        (mode, targets)
    }

    /// The positions of the `pid_*` entries among the names of a per-uid
    /// cgroup directory.
    pub fn select_pid_entries(names: &Vec<String>) -> (r: Vec<usize>)
        ensures
            r@ == pid_entries_of(strings_view(names@)),
    {
        let prefix = chars_of("pid_");
        let ghost ns = strings_view(names@);
        let mut r: Vec<usize> = Vec::new();
        let mut k: usize = 0;
        assert(ns.take(0) =~= Seq::<Seq<char>>::empty());
        while k < names.len()
            invariant
                k <= names.len(),
                ns == strings_view(names@),
                prefix@ == "pid_"@,
                r@ == pid_entries_of(ns.take(k as int)),
            decreases names.len() - k,
        {
            assert(ns.take(k + 1).drop_last() =~= ns.take(k as int));
            assert(ns.take(k + 1).last() == names@[k as int]@);
            if starts_with_exec(&chars_of(names[k].as_str()), &prefix) {
                r.push(k);
            }
            k = k + 1;
        }
        assert(ns.take(k as int) =~= ns);
        r
    }

    /// The writes that freeze the pending uids, given the files to freeze.
    pub fn freeze_ops(&self, mode: Mode, freezePath: &Vec<String>) -> (r: Vec<WriteOp>)
        ensures
            mode == Mode::V1 ==> ops_view(r@) == cgroup::v1::v1_ops(
                crate::mounts::V1_FROZEN_PROCS@,
                self.cgroup_state().v1_state().uid(),
            ),
            mode == Mode::V2 ==> exists|order: Seq<usize>|
                enumerates(order, self.pending()) && ops_view(r@) == #[trigger] cgroup::v2::v2_frozen_ops(
                    strings_view(freezePath@),
                    order,
                ),
            mode == Mode::SIGSTOP ==> r@.len() == 0,
    {
        self.cgroup.frozen(mode, freezePath, &self.pendingHandleList.list)
    }
}

} // verus!
