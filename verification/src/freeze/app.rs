//! The installed packages and which of them are on screen.
//!
//! `App::new` reads the output of `cmd package list packages -U`;
//! `App::ReflashPackages` reads the output of `cmd activity stack list`;
//! `App::GetPids` reads the process table. The commands and the process
//! table are read by the caller.
use vstd::prelude::*;
use std::collections::HashSet;
use crate::pattern::{capture_group, group_of, regex_captures, COMPONENT_PATTERN};
use crate::table::{keys_unique, lemma_pairs_insert, pairs_get, pairs_insert, pairs_to_map, Pair, PackageTable};
use crate::text::{
    chars_of, contains_exec, contains_sub, first_token, first_token_exec, lines_exec, lines_of,
    parse_usize, parse_usize_exec, split_once, split_once_exec, starts_with, starts_with_exec,
    string_of, trim, trim_exec, trim_start_matches, trim_start_matches_exec,
};
use super::whitelist::{builtin_whitelisted, is_builtin_whitelisted};

verus! {

broadcast use vstd::std_specs::hash::group_hash_axioms;

/// Packages with a uid below this are system processes and are left out.
pub const FIRST_APP_UID: usize = 1000;

/// Why reading the package list or the process table failed.
#[derive(Debug)]
pub enum AppError {
    /// A `package:` line whose uid is not a number (the text that was read as the uid).
    InvalidUid(String),
    /// A process whose information could not be read.
    ProcessUnreadable,
}

/// One entry of the process table, as far as `GetPids` needs it.
#[derive(Debug, Clone, Copy, PartialEq, Eq)]
pub enum ProcessEntry {
    /// The process could not be opened.
    Unreadable,
    /// The process was opened but its status could not be read.
    NoStatus,
    /// A process and its real uid.
    Status { pid: usize, ruid: usize },
}

// ---------------------------------------------------------------------------
// The package list
// ---------------------------------------------------------------------------

/// Packages read so far and the uids of the built-in whitelisted ones.
pub type ListState = (Seq<Pair>, Set<usize>);

/// One line of `cmd package list packages -U` (`package:NAME uid:UID`).
pub open spec fn package_line(acc: ListState, line: Seq<char>) -> Result<ListState, Seq<char>> {
    if !starts_with(line, "package:"@) {
        Ok(acc)
    } else {
        match split_once(line, " uid:"@) {
            None => Ok(acc),
            Some((pkg_part, uid_part)) => {
                let package = trim(trim_start_matches(pkg_part, "package:"@));
                let uid_str = first_token(uid_part);
                match parse_usize(uid_str) {
                    None => Err(uid_str),
                    Some(uid) => if uid < FIRST_APP_UID {
                        Ok(acc)
                    } else {
                        Ok(
                            (
                                pairs_insert(acc.0, package, uid),
                                if builtin_whitelisted(package) {
                                    acc.1.insert(uid)
                                } else {
                                    acc.1
                                },
                            ),
                        )
                    },
                }
            },
        }
    }
}

/// The whole package list, line by line; the first bad uid ends it.
pub open spec fn package_list(lines: Seq<Seq<char>>) -> Result<ListState, Seq<char>>
    decreases lines.len(),
{
    if lines.len() == 0 {
        Ok((Seq::<Pair>::empty(), Set::<usize>::empty()))
    } else {
        match package_list(lines.drop_last()) {
            Err(e) => Err(e),
            Ok(acc) => package_line(acc, lines.last()),
        }
    }
}

// ---------------------------------------------------------------------------
// The activity stack
// ---------------------------------------------------------------------------

/// (home found, home line just seen, home uid, visible packages, background packages)
pub type StackState = (bool, bool, usize, Seq<Pair>, Seq<Pair>);

/// One line of `cmd activity stack list`.
pub open spec fn stack_line(st: StackState, line: Seq<char>, all: Seq<Pair>, wl: Set<usize>) -> StackState {
    if !st.0 && contains_sub(line, "mActivityType=home"@) {
        (true, true, st.2, st.3, st.4)
    } else {
        let pkg = group_of(regex_captures(COMPONENT_PATTERN@, line), 1);
        if starts_with(line, "  taskId="@) && pkg is Some && pairs_get(all, pkg->0) is Some {
            let name = pkg->0;
            let uid = pairs_get(all, name)->0;
            let home = if st.1 {
                uid
            } else {
                st.2
            };
            if wl.contains(uid) {
                (st.0, st.1, home, st.3, st.4)
            } else if contains_sub(line, "visible=true"@) {
                (st.0, st.1, home, pairs_insert(st.3, name, uid), st.4)
            } else if contains_sub(line, "visible=false"@) {
                (st.0, st.1, home, st.3, pairs_insert(st.4, name, uid))
            } else {
                (st.0, st.1, home, st.3, st.4)
            }
        } else {
            st
        }
    }
}

pub open spec fn stack_lines(st: StackState, lines: Seq<Seq<char>>, all: Seq<Pair>, wl: Set<usize>) -> StackState
    decreases lines.len(),
{
    if lines.len() == 0 {
        st
    } else {
        stack_line(stack_lines(st, lines.drop_last(), all, wl), lines.last(), all, wl)
    }
}

/// An entry names a known package with its uid, and that uid is not whitelisted.
pub open spec fn entries_ok(p: Seq<Pair>, all: Seq<Pair>, wl: Set<usize>) -> bool {
    forall|i: int|
        0 <= i < p.len() ==> pairs_get(all, #[trigger] p[i].0) == Some(p[i].1) && !wl.contains(
            p[i].1,
        )
}

// ---------------------------------------------------------------------------
// The process table
// ---------------------------------------------------------------------------

/// The pids of the processes whose real uid is `uid`, in table order;
/// `None` when a process cannot be read.
pub open spec fn pids_of(procs: Seq<ProcessEntry>, uid: usize) -> Option<Seq<usize>>
    decreases procs.len(),
{
    if procs.len() == 0 {
        Some(Seq::<usize>::empty())
    } else {
        match pids_of(procs.drop_last(), uid) {
            None => None,
            Some(found) => match procs.last() {
                ProcessEntry::Unreadable => None,
                ProcessEntry::NoStatus => Some(found),
                ProcessEntry::Status { pid, ruid } => if ruid == uid {
                    Some(found.push(pid))
                } else {
                    Some(found)
                },
            },
        }
    }
}

// ---------------------------------------------------------------------------
// Laws
// ---------------------------------------------------------------------------

proof fn lemma_entries_ok_insert(p: Seq<Pair>, all: Seq<Pair>, wl: Set<usize>, k: Seq<char>, v: usize)
    requires
        entries_ok(p, all, wl),
        pairs_get(all, k) == Some(v),
        !wl.contains(v),
    ensures
        entries_ok(pairs_insert(p, k, v), all, wl),
{
    crate::table::lemma_key_index(p, k);
    let q = pairs_insert(p, k, v);
    assert forall|i: int| 0 <= i < q.len() implies pairs_get(all, #[trigger] q[i].0) == Some(q[i].1)
        && !wl.contains(q[i].1) by {
        if i < p.len() && q[i] == p[i] {
            assert(pairs_get(all, p[i].0) == Some(p[i].1));
        }
    }
}

proof fn lemma_keys_kept_insert(p: Seq<Pair>, k: Seq<char>, v: usize)
    ensures
        pairs_to_map(p).dom().subset_of(pairs_to_map(pairs_insert(p, k, v)).dom()),
{
    lemma_pairs_insert(p, k, v);
}

/// Reading the activity stack keeps every recorded visible or background
/// entry a known, non-whitelisted package with its own uid; it never forgets
/// a package it has recorded; and once the home screen is found it stays found.
pub proof fn law_stack_lines(st: StackState, lines: Seq<Seq<char>>, all: Seq<Pair>, wl: Set<usize>)
    ensures
        entries_ok(st.3, all, wl) && entries_ok(st.4, all, wl) ==> entries_ok(
            stack_lines(st, lines, all, wl).3,
            all,
            wl,
        ) && entries_ok(stack_lines(st, lines, all, wl).4, all, wl),
        pairs_to_map(st.3).dom().subset_of(pairs_to_map(stack_lines(st, lines, all, wl).3).dom()),
        pairs_to_map(st.4).dom().subset_of(pairs_to_map(stack_lines(st, lines, all, wl).4).dom()),
        st.0 ==> stack_lines(st, lines, all, wl).0,
    decreases lines.len(),
{
    if lines.len() > 0 {
        law_stack_lines(st, lines.drop_last(), all, wl);
        let s1 = stack_lines(st, lines.drop_last(), all, wl);
        let line = lines.last();
        let pkg = group_of(regex_captures(COMPONENT_PATTERN@, line), 1);
        if !(!s1.0 && contains_sub(line, "mActivityType=home"@)) && starts_with(line, "  taskId="@)
            && pkg is Some && pairs_get(all, pkg->0) is Some {
            let name = pkg->0;
            let uid = pairs_get(all, name)->0;
            lemma_keys_kept_insert(s1.3, name, uid);
            lemma_keys_kept_insert(s1.4, name, uid);
            if entries_ok(s1.3, all, wl) && entries_ok(s1.4, all, wl) && !wl.contains(uid) {
                lemma_entries_ok_insert(s1.3, all, wl, name, uid);
                lemma_entries_ok_insert(s1.4, all, wl, name, uid);
            }
        }
    }
}

/// Once the home screen has been found before a reading starts, the reading
/// neither marks a home line nor changes the home uid.
pub proof fn law_home_fixed(st: StackState, lines: Seq<Seq<char>>, all: Seq<Pair>, wl: Set<usize>)
    requires
        st.0,
        !st.1,
    ensures
        stack_lines(st, lines, all, wl).0,
        !stack_lines(st, lines, all, wl).1,
        stack_lines(st, lines, all, wl).2 == st.2,
    decreases lines.len(),
{
    if lines.len() > 0 {
        law_home_fixed(st, lines.drop_last(), all, wl);
    }
}

/// Every package read from the package list has an application uid, every
/// whitelisted uid is one, and no package is listed twice.
pub proof fn law_package_list(lines: Seq<Seq<char>>)
    ensures
        package_list(lines) matches Ok(acc) ==> {
            &&& forall|i: int| 0 <= i < acc.0.len() ==> (#[trigger] acc.0[i]).1 >= FIRST_APP_UID
            &&& forall|u: usize| #[trigger] acc.1.contains(u) ==> u >= FIRST_APP_UID
            &&& keys_unique(acc.0)
        },
    decreases lines.len(),
{
    if lines.len() > 0 {
        law_package_list(lines.drop_last());
        if let Ok(acc) = package_list(lines.drop_last()) {
            let line = lines.last();
            if starts_with(line, "package:"@) {
                if let Some((pkg_part, uid_part)) = split_once(line, " uid:"@) {
                    let package = trim(trim_start_matches(pkg_part, "package:"@));
                    if let Some(uid) = parse_usize(first_token(uid_part)) {
                        if uid >= FIRST_APP_UID {
                            lemma_pairs_insert(acc.0, package, uid);
                            crate::table::lemma_key_index(acc.0, package);
                            let q = pairs_insert(acc.0, package, uid);
                            assert forall|i: int| 0 <= i < q.len() implies (#[trigger] q[i]).1
                                >= FIRST_APP_UID by {
                                if i < acc.0.len() && q[i] == acc.0[i] {
                                    assert(acc.0[i].1 >= FIRST_APP_UID);
                                }
                            }
                        }
                    }
                }
            }
        }
    }
}

/// The value stored under `k2` does not change when another key is stored.
proof fn lemma_get_other(p: Seq<Pair>, k: Seq<char>, v: usize, k2: Seq<char>)
    requires
        k != k2,
    ensures
        pairs_get(pairs_insert(p, k, v), k2) == pairs_get(p, k2),
{
    lemma_pairs_insert(p, k, v);
    crate::table::lemma_key_index(p, k2);
    crate::table::lemma_key_index(pairs_insert(p, k, v), k2);
    let m = pairs_to_map(p);
    let m2 = pairs_to_map(pairs_insert(p, k, v));
    assert(m2.dom().contains(k2) == m.dom().contains(k2));
    if m.dom().contains(k2) {
        assert(m2[k2] == m[k2]);
    }
}

/// Whether `line` is a `package:` line that names `name` with uid `uid`.
pub open spec fn names_package(line: Seq<char>, name: Seq<char>, uid: usize) -> bool {
    &&& starts_with(line, "package:"@)
    &&& split_once(line, " uid:"@) matches Some((p, q))
    &&& trim(trim_start_matches(p, "package:"@)) == name
    &&& parse_usize(first_token(q)) == Some(uid)
}

/// A package line with a uid of 1000 or more records its package with that
/// uid (built-in whitelisted or not, overriding an earlier entry); one with a
/// smaller uid changes nothing.
pub proof fn law_package_line_threshold(acc: ListState, line: Seq<char>, name: Seq<char>, uid: usize)
    requires
        names_package(line, name, uid),
    ensures
        uid >= 1000 ==> (package_line(acc, line) matches Ok(a) && pairs_get(a.0, name) == Some(uid)
            && forall|other: Seq<char>| other != name ==> #[trigger] pairs_get(a.0, other) == pairs_get(acc.0, other)),
        uid < 1000 ==> package_line(acc, line) == Ok::<ListState, Seq<char>>(acc),
{
    lemma_pairs_insert(acc.0, name, uid);
    assert forall|other: Seq<char>| other != name implies #[trigger] pairs_get(pairs_insert(acc.0, name, uid), other)
        == pairs_get(acc.0, other) by {
        lemma_get_other(acc.0, name, uid, other);
    }
}

/// A line that is not a package line naming `name` with an application uid
/// leaves the uid stored for `name` as it was (or fails the whole list).
proof fn lemma_package_line_keeps(acc: ListState, line: Seq<char>, name: Seq<char>)
    requires
        forall|u: usize| u >= 1000 ==> !#[trigger] names_package(line, name, u),
    ensures
        package_line(acc, line) matches Ok(a) ==> pairs_get(a.0, name) == pairs_get(acc.0, name),
{
    if starts_with(line, "package:"@) {
        if let Some((p, q)) = split_once(line, " uid:"@) {
            let pkg = trim(trim_start_matches(p, "package:"@));
            if let Some(u) = parse_usize(first_token(q)) {
                if u >= FIRST_APP_UID {
                    if pkg == name {
                        assert(names_package(line, name, u));
                    } else {
                        lemma_get_other(acc.0, pkg, u, name);
                    }
                }
            }
        }
    }
}

/// Every package line with a uid of 1000 or more is recorded: when the list
/// reads, its package has that uid unless a later package line with an
/// application uid names the same package.
pub proof fn law_package_list_records(lines: Seq<Seq<char>>, k: int, name: Seq<char>, uid: usize)
    requires
        0 <= k < lines.len(),
        uid >= 1000,
        names_package(lines[k], name, uid),
        forall|j: int, u: usize| k < j < lines.len() && u >= 1000 ==> !#[trigger] names_package(lines[j], name, u),
    ensures
        package_list(lines) matches Ok(acc) ==> pairs_get(acc.0, name) == Some(uid),
    decreases lines.len(),
{
    if k == lines.len() - 1 {
        if let Ok(prev) = package_list(lines.drop_last()) {
            law_package_line_threshold(prev, lines.last(), name, uid);
        }
    } else {
        let d = lines.drop_last();
        assert forall|j: int, u: usize| k < j < d.len() && u >= 1000 implies !#[trigger] names_package(d[j], name, u) by {
            assert(d[j] == lines[j]);
        }
        assert(d[k] == lines[k]);
        law_package_list_records(d, k, name, uid);
        let n = lines.len() - 1;
        assert forall|u: usize| u >= 1000 implies !#[trigger] names_package(lines.last(), name, u) by {
            assert(lines.last() == lines[n]);
        }
        if let Ok(prev) = package_list(d) {
            lemma_package_line_keeps(prev, lines.last(), name);
        }
    }
}

/// Right after the home-screen marker, a task line of an installed package
/// makes that package's uid the home uid, whether it is whitelisted or not.
pub proof fn law_home_after_marker(
    st: StackState,
    marker: Seq<char>,
    task: Seq<char>,
    all: Seq<Pair>,
    wl: Set<usize>,
    name: Seq<char>,
    uid: usize,
)
    requires
        !st.0,
        contains_sub(marker, "mActivityType=home"@),
        starts_with(task, "  taskId="@),
        group_of(regex_captures(COMPONENT_PATTERN@, task), 1) == Some(name),
        pairs_get(all, name) == Some(uid),
    ensures
        stack_lines(st, seq![marker, task], all, wl).0,
        stack_lines(st, seq![marker, task], all, wl).2 == uid,
{
    let ls = seq![marker, task];
    assert(ls.drop_last() =~= seq![marker]);
    assert(seq![marker].drop_last() =~= Seq::<Seq<char>>::empty());
    assert(stack_lines(st, Seq::<Seq<char>>::empty(), all, wl) == st);
    assert(stack_lines(st, seq![marker], all, wl) == stack_line(st, marker, all, wl));
    let s1 = stack_lines(st, seq![marker], all, wl);
    assert(s1.0 && s1.1);
    assert(stack_lines(st, ls, all, wl) == stack_line(s1, task, all, wl));
}

// ---------------------------------------------------------------------------
// App
// ---------------------------------------------------------------------------

/// The installed packages, the whitelisted uids and what is on screen.
pub struct App {
    /// Uid of the home screen (launcher) package, 0 until it is found.
    pub home_uid: usize,
    has_home: bool,
    AllPackages: PackageTable,
    /// Packages seen with a task that is not visible.
    pub BackGroundPackages: PackageTable,
    /// Packages seen with a visible task.
    pub VisiblePackage: PackageTable,
    whitelist: HashSet<usize>,
}

impl App {
    /// Whether the home screen has been found.
    pub closed spec fn home_found(&self) -> bool {
        self.has_home
    }

    /// The home uid.
    pub closed spec fn home(&self) -> usize {
        self.home_uid
    }

    /// The visible packages.
    pub closed spec fn visible(&self) -> Seq<Pair> {
        self.VisiblePackage.pairs()
    }

    /// The background packages.
    pub closed spec fn background(&self) -> Seq<Pair> {
        self.BackGroundPackages.pairs()
    }

    /// Every installed application package with its uid.
    pub closed spec fn packages(&self) -> Seq<Pair> {
        self.AllPackages.pairs()
    }

    /// The whitelisted uids.
    pub closed spec fn whitelisted(&self) -> Set<usize> {
        self.whitelist@
    }

    /// Every visible or background entry names an installed package with
    /// its own uid, and that uid is not whitelisted; every installed package
    /// has an application uid.
    pub open spec fn consistent(&self) -> bool {
        &&& entries_ok(self.visible(), self.packages(), self.whitelisted())
        &&& entries_ok(self.background(), self.packages(), self.whitelisted())
        &&& forall|i: int| 0 <= i < self.packages().len() ==> (#[trigger] self.packages()[i]).1 >= FIRST_APP_UID
    }

    /// Builds the package table from the output of
    /// `cmd package list packages -U`: every `package:NAME uid:UID` line with
    /// a uid of at least 1000 is recorded, and the uid of a package in the
    /// built-in whitelist is whitelisted. A uid that is not a number fails.
    pub fn new(output: &str) -> (r: Result<Self, AppError>)
        ensures
            match r {
                Ok(app) => {
                    &&& package_list(lines_of(output@)) == Ok::<ListState, Seq<char>>((app.packages(), app.whitelisted()))
                    &&& app.home() == 0
                    &&& !app.home_found()
                    &&& app.visible() == Seq::<Pair>::empty()
                    &&& app.background() == Seq::<Pair>::empty()
                    &&& app.consistent()
                },
                Err(AppError::InvalidUid(s)) => package_list(lines_of(output@)) == Err::<ListState, Seq<char>>(s@),
                Err(AppError::ProcessUnreadable) => false,
            },
    {
        let text = chars_of(output);
        let lines = lines_exec(&text);
        let ghost ls = lines_of(text@);
        let prefix = chars_of("package:");
        let sep = chars_of(" uid:");
        proof {
            reveal_strlit("package:");
        }
        let mut packages = PackageTable::new();
        let mut whitelist: HashSet<usize> = HashSet::new();
        let mut k: usize = 0;
        assert(ls.take(0) =~= Seq::<Seq<char>>::empty());
        while k < lines.len()
            invariant
                k <= lines.len(),
                lines.len() == ls.len(),
                forall|j: int| 0 <= j < lines.len() ==> (#[trigger] lines[j])@ == ls[j],
                prefix@ == "package:"@,
                sep@ == " uid:"@,
                prefix.len() > 0,
                ls == lines_of(output@),
                package_list(ls.take(k as int)) == Ok::<ListState, Seq<char>>((packages.pairs(), whitelist@)),
            decreases lines.len() - k,
        {
            let line = &lines[k];
            assert(ls.take(k + 1).drop_last() =~= ls.take(k as int));
            assert(ls.take(k + 1).last() == line@);
            if starts_with_exec(line, &prefix) {
                match split_once_exec(line, &sep) {
                    Some((pkg_part, uid_part)) => {
                        let package = trim_exec(&trim_start_matches_exec(&pkg_part, &prefix));
                        let uid_str = first_token_exec(&uid_part);
                        match parse_usize_exec(&uid_str) {
                            Some(uid) => {
                                if uid >= FIRST_APP_UID {
                                    if is_builtin_whitelisted(&package) {
                                        whitelist.insert(uid);
                                    }
                                    packages.insert_chars(package, uid);
                                }
                            },
                            None => {
                                assert(package_line((packages.pairs(), whitelist@), line@) == Err::<ListState, Seq<char>>(uid_str@));
                                assert(package_list(ls.take(k + 1)) == Err::<ListState, Seq<char>>(uid_str@));
                                proof {
                                    lemma_package_list_err_prefix(ls, k as int + 1);
                                }
                                let s = string_of(uid_str.as_slice());
                                assert(package_list(lines_of(output@)) == Err::<ListState, Seq<char>>(s@));
                                return Err(AppError::InvalidUid(s));
                            },
                        }
                    },
                    None => {},
                }
            }
            k = k + 1;
        }
        assert(ls.take(k as int) =~= ls);
        proof {
            law_package_list(ls);
        }
        Ok(
            App {
                home_uid: 0,
                has_home: false,
                AllPackages: packages,
                BackGroundPackages: PackageTable::new(),
                VisiblePackage: PackageTable::new(),
                whitelist,
            },
        )
    }

    /// The pids of the processes whose real uid is `uid`, in table order.
    /// A process that cannot be opened fails the whole call; one whose
    /// status cannot be read is passed over.
    pub fn GetPids(procs: &Vec<ProcessEntry>, uid: usize) -> (r: Result<Vec<usize>, AppError>)
        ensures
            match r {
                Ok(v) => pids_of(procs@, uid) == Some(v@),
                Err(e) => pids_of(procs@, uid) is None && e is ProcessUnreadable,
            },
    {
        let mut pids: Vec<usize> = Vec::new();
        let mut k: usize = 0;
        assert(procs@.take(0) =~= Seq::<ProcessEntry>::empty());
        while k < procs.len()
            invariant
                k <= procs.len(),
                pids_of(procs@.take(k as int), uid) == Some(pids@),
            decreases procs.len() - k,
        {
            assert(procs@.take(k + 1).drop_last() =~= procs@.take(k as int));
            match procs[k] {
                ProcessEntry::Unreadable => {
                    proof {
                        lemma_pids_of_none_prefix(procs@, uid, k as int + 1);
                    }
                    return Err(AppError::ProcessUnreadable);
                },
                ProcessEntry::NoStatus => {},
                ProcessEntry::Status { pid, ruid } => {
                    if ruid == uid {
                        pids.push(pid);
                    }
                },
            }
            k = k + 1;
        }
        assert(procs@.take(k as int) =~= procs@);
        Ok(pids)
    }

    /// Reads the output of `cmd activity stack list`. The first line that
    /// marks the home screen (`mActivityType=home`) is remembered, and the
    /// package of a task line that follows it becomes the home uid. Every task
    /// line (`  taskId=`) of a known, non-whitelisted package records the
    /// package as visible (`visible=true`) or in the background
    /// (`visible=false`). Nothing recorded before is removed.
    pub fn ReflashPackages(&mut self, output: &str)
        ensures
            reading(*old(self), *final(self), output@),
            old(self).consistent() ==> final(self).consistent(),
    {
        let text = chars_of(output);
        let lines = lines_exec(&text);
        let ghost ls = lines_of(text@);
        let ghost all = self.AllPackages.pairs();
        let ghost wl = self.whitelist@;
        let ghost st0 = (self.has_home, false, self.home_uid, self.VisiblePackage.pairs(), self.BackGroundPackages.pairs());
        let home_mark = chars_of("mActivityType=home");
        let task_prefix = chars_of("  taskId=");
        let vis_true = chars_of("visible=true");
        let vis_false = chars_of("visible=false");
        let mut last_home = false;
        let mut k: usize = 0;
        assert(ls.take(0) =~= Seq::<Seq<char>>::empty());
        while k < lines.len()
            invariant
                k <= lines.len(),
                lines.len() == ls.len(),
                forall|j: int| 0 <= j < lines.len() ==> (#[trigger] lines[j])@ == ls[j],
                home_mark@ == "mActivityType=home"@,
                task_prefix@ == "  taskId="@,
                vis_true@ == "visible=true"@,
                vis_false@ == "visible=false"@,
                self.AllPackages.pairs() == all,
                self.whitelist@ == wl,
                stack_lines(st0, ls.take(k as int), all, wl) == (self.has_home, last_home, self.home_uid,
                    self.VisiblePackage.pairs(), self.BackGroundPackages.pairs()),
            decreases lines.len() - k,
        {
            let line = &lines[k];
            assert(ls.take(k + 1).drop_last() =~= ls.take(k as int));
            assert(ls.take(k + 1).last() == line@);
            if !self.has_home && contains_exec(line, &home_mark) {
                self.has_home = true;
                last_home = true;
            } else if starts_with_exec(line, &task_prefix) {
                let line_str = string_of(line.as_slice());
                match capture_group(COMPONENT_PATTERN, line_str.as_str(), 1) {
                    Some(pkg) => {
                        let name = chars_of(pkg.as_str());
                        match self.AllPackages.get_chars(&name) {
                            Some(uid) => {
                                if last_home {
                                    self.home_uid = uid;
                                }
                                if !self.whitelist.contains(&uid) {
                                    if contains_exec(line, &vis_true) {
                                        self.VisiblePackage.insert_chars(name, uid);
                                    } else if contains_exec(line, &vis_false) {
                                        self.BackGroundPackages.insert_chars(name, uid);
                                    }
                                }
                            },
                            None => {},
                        }
                    },
                    None => {},
                }
            }
            k = k + 1;
        }
        assert(ls.take(k as int) =~= ls);
        proof {
            law_stack_lines(st0, ls, all, wl);
        }
    }

    /// Whether `uid` is whitelisted.
    pub fn is_whitelist(&self, uid: usize) -> (b: bool)
        ensures
            b == self.whitelisted().contains(uid),
    {
        self.whitelist.contains(&uid)
    }

    /// Whether the home screen has been found.
    pub fn has_home(&self) -> (b: bool)
        ensures
            b == self.home_found(),
    {
        self.has_home
    }

    /// The uid of an installed package.
    pub fn package_uid(&self, package: &str) -> (r: Option<usize>)
        ensures
            r == pairs_get(self.packages(), package@),
    {
        self.AllPackages.get(package)
    }
}

/// `after` is what reading the activity stack listing `output` leaves of
/// `before`: the home and the visible and background entries as
/// `stack_lines` gives them, the package table and the whitelist untouched.
pub open spec fn reading(before: App, after: App, output: Seq<char>) -> bool {
    let st = stack_lines(
        (before.home_found(), false, before.home(), before.visible(), before.background()),
        lines_of(output),
        before.packages(),
        before.whitelisted(),
    );
    &&& after.home_found() == st.0
    &&& after.home() == st.2
    &&& after.visible() == st.3
    &&& after.background() == st.4
    &&& after.packages() == before.packages()
    &&& after.whitelisted() == before.whitelisted()
}

/// One reading of the activity stack keeps a consistent app consistent.
pub proof fn law_reading_keeps_consistent(before: App, after: App, output: Seq<char>)
    requires
        before.consistent(),
        reading(before, after, output),
    ensures
        after.consistent(),
{
    law_stack_lines(
        (before.home_found(), false, before.home(), before.visible(), before.background()),
        lines_of(output),
        before.packages(),
        before.whitelisted(),
    );
}

/// Through any run of readings of the activity stack that starts from a
/// consistent app (as `App::new` builds it), every state is consistent and
/// keeps the package table and the whitelist of the first.
pub proof fn law_readings_keep_consistent(run: Seq<App>, outputs: Seq<Seq<char>>)
    requires
        run.len() == outputs.len() + 1,
        run[0].consistent(),
        forall|k: int| 0 <= k < outputs.len() ==> #[trigger] reading(run[k], run[k + 1], outputs[k]),
    ensures
        forall|k: int|
            0 <= k < run.len() ==> (#[trigger] run[k]).consistent() && run[k].packages() == run[0].packages()
                && run[k].whitelisted() == run[0].whitelisted(),
    decreases outputs.len(),
{
    if outputs.len() > 0 {
        let n = outputs.len() - 1;
        let shorter = run.drop_last();
        assert forall|k: int| 0 <= k < outputs.drop_last().len() implies #[trigger] reading(
            shorter[k],
            shorter[k + 1],
            outputs.drop_last()[k],
        ) by {
            assert(reading(run[k], run[k + 1], outputs[k]));
        }
        law_readings_keep_consistent(shorter, outputs.drop_last());
        assert(shorter[n] == run[n]);
        assert(reading(run[n], run[n + 1], outputs[n]));
        law_reading_keeps_consistent(run[n], run[n + 1], outputs[n]);
        assert forall|k: int| 0 <= k < run.len() implies (#[trigger] run[k]).consistent() && run[k].packages()
            == run[0].packages() && run[k].whitelisted() == run[0].whitelisted() by {
            if k < run.len() - 1 {
                assert(shorter[k] == run[k]);
            }
        }
    }
}

proof fn lemma_package_list_err_prefix(ls: Seq<Seq<char>>, k: int)
    requires
        0 <= k <= ls.len(),
        package_list(ls.take(k)) is Err,
    ensures
        package_list(ls) == package_list(ls.take(k)),
    decreases ls.len() - k,
{
    if k < ls.len() {
        assert(ls.take(k + 1).drop_last() =~= ls.take(k));
        lemma_package_list_err_prefix(ls, k + 1);
    } else {
        assert(ls.take(k) =~= ls);
    }
}

proof fn lemma_pids_of_none_prefix(procs: Seq<ProcessEntry>, uid: usize, k: int)
    requires
        0 <= k <= procs.len(),
        pids_of(procs.take(k), uid) is None,
    ensures
        pids_of(procs, uid) is None,
    decreases procs.len() - k,
{
    if k < procs.len() {
        assert(procs.take(k + 1).drop_last() =~= procs.take(k));
        lemma_pids_of_none_prefix(procs, uid, k + 1);
    } else {
        assert(procs.take(k) =~= procs);
    }
}

} // verus!
