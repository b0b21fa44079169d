//! The installed packages (from `/data/system/packages.list`), the pids of a
//! package's processes (from `/proc`), and the whitelisted uids. The files
//! are read by the caller.
use vstd::prelude::*;
use std::collections::HashSet;
use crate::pattern::{capture_group, group_of, regex_captures};
use crate::table::{lemma_pairs_insert, pairs_get, pairs_insert, Pair, NameSet, PackageTable};
use crate::text::{chars_of, lines_exec, lines_of, parse_usize, parse_usize_exec, starts_with, starts_with_exec, string_of};

verus! {

broadcast use vstd::std_specs::hash::group_hash_axioms;

/// A line of `packages.list`: name, uid, debug flag, data directory.
pub const PKG_PATTERN: &'static str = "^(?<pkg>\\S+)\\s+(?<uid>\\d+)\\s+\\d+\\s+/data/data/\\S+";

/// Processes with a pid up to this one are never a package's.
pub const LAST_SYSTEM_PID: usize = 100;

/// Why reading `packages.list` failed.
#[derive(Debug)]
pub enum AppError {
    /// The uid field of `line` is not a number.
    InvalidUid { uid: String, line: String },
}

/// An entry of `/proc`: its file name (when it is valid UTF-8) and the
/// contents of its `cmdline` file (when it could be read).
pub struct ProcDirEntry {
    pub name: Option<String>,
    pub cmdline: Option<String>,
}

pub open spec fn opt_view(o: Option<String>) -> Option<Seq<char>> {
    match o {
        Some(s) => Some(s@),
        None => None,
    }
}

pub open spec fn entries_view(e: Seq<ProcDirEntry>) -> Seq<(Option<Seq<char>>, Option<Seq<char>>)> {
    Seq::new(e.len(), |i: int| (opt_view(e[i].name), opt_view(e[i].cmdline)))
}

/// One line of `packages.list`.
pub open spec fn packages_line(acc: Seq<Pair>, line: Seq<char>) -> Result<Seq<Pair>, (Seq<char>, Seq<char>)> {
    let caps = regex_captures(PKG_PATTERN@, line);
    let pkg = group_of(caps, 1);
    let uid = group_of(caps, 2);
    if pkg is Some && uid is Some {
        match parse_usize(uid->0) {
            Some(u) => Ok(pairs_insert(acc, pkg->0, u)),
            None => Err((uid->0, line)),
        }
    } else {
        Ok(acc)
    }
}

/// All of `packages.list`; the first bad uid ends it.
pub open spec fn packages_file(lines: Seq<Seq<char>>) -> Result<Seq<Pair>, (Seq<char>, Seq<char>)>
    decreases lines.len(),
{
    if lines.len() == 0 {
        Ok(Seq::<Pair>::empty())
    } else {
        match packages_file(lines.drop_last()) {
            Err(e) => Err(e),
            Ok(acc) => packages_line(acc, lines.last()),
        }
    }
}

/// The pid that one `/proc` entry gives `package`: a numeric name above 100
/// whose command line starts with the package name.
pub open spec fn pid_of_entry(e: (Option<Seq<char>>, Option<Seq<char>>), package: Seq<char>) -> Option<usize> {
    match e.0 {
        None => None,
        Some(n) => match parse_usize(n) {
            None => None,
            Some(pid) => if pid <= LAST_SYSTEM_PID {
                None
            } else {
                match e.1 {
                    None => None,
                    Some(c) => if starts_with(c, package) {
                        Some(pid)
                    } else {
                        None
                    },
                }
            },
        },
    }
}

/// One `/proc` entry: a matching entry records its pid for the package.
pub open spec fn pid_entry(pids: Seq<Pair>, e: (Option<Seq<char>>, Option<Seq<char>>), package: Seq<char>) -> Seq<Pair> {
    match pid_of_entry(e, package) {
        Some(pid) => pairs_insert(pids, package, pid),
        None => pids,
    }
}

pub open spec fn pid_entries(pids: Seq<Pair>, es: Seq<(Option<Seq<char>>, Option<Seq<char>>)>, package: Seq<char>) -> Seq<Pair>
    decreases es.len(),
{
    if es.len() == 0 {
        pids
    } else {
        pid_entry(pid_entries(pids, es.drop_last(), package), es.last(), package)
    }
}

/// Scanning `/proc` either leaves the table or stores one pid for the package.
pub proof fn lemma_pid_entries_shape(pids: Seq<Pair>, es: Seq<(Option<Seq<char>>, Option<Seq<char>>)>, package: Seq<char>)
    ensures
        pid_entries(pids, es, package) == pids || exists|w: usize| pid_entries(pids, es, package) == pairs_insert(pids, package, w),
    decreases es.len(),
{
    if es.len() > 0 {
        let d = es.drop_last();
        lemma_pid_entries_shape(pids, d, package);
        if let Some(v) = pid_of_entry(es.last(), package) {
            if pid_entries(pids, d, package) != pids {
                let w = choose|w: usize| pid_entries(pids, d, package) == pairs_insert(pids, package, w);
                crate::table::lemma_pairs_insert_twice(pids, package, w, v);
            }
            assert(pid_entries(pids, es, package) == pairs_insert(pids, package, v));
        }
    }
}

/// Scanning `/proc` records the pid of the last matching entry for the
/// package, and changes nothing when no entry matches.
pub proof fn law_pid_entries_last(pids: Seq<Pair>, es: Seq<(Option<Seq<char>>, Option<Seq<char>>)>, package: Seq<char>)
    ensures
        forall|k: int|
            0 <= k < es.len() && pid_of_entry(#[trigger] es[k], package) is Some && (forall|j: int|
                k < j < es.len() ==> pid_of_entry(#[trigger] es[j], package) is None) ==> pid_entries(pids, es, package)
                == pairs_insert(pids, package, pid_of_entry(es[k], package)->0),
        (forall|k: int| 0 <= k < es.len() ==> pid_of_entry(#[trigger] es[k], package) is None) ==> pid_entries(
            pids,
            es,
            package,
        ) == pids,
    decreases es.len(),
{
    if es.len() > 0 {
        let d = es.drop_last();
        law_pid_entries_last(pids, d, package);
        let n = es.len() - 1;
        assert(es[n] == es.last());
        assert forall|k: int|
            0 <= k < es.len() && pid_of_entry(#[trigger] es[k], package) is Some && (forall|j: int|
                k < j < es.len() ==> pid_of_entry(#[trigger] es[j], package) is None) implies pid_entries(pids, es, package)
                == pairs_insert(pids, package, pid_of_entry(es[k], package)->0) by {
            if k < n {
                assert(pid_of_entry(es[n], package) is None);
                assert(d[k] == es[k]);
                assert forall|j: int| k < j < d.len() implies pid_of_entry(#[trigger] d[j], package) is None by {
                    assert(d[j] == es[j]);
                }
            } else {
                lemma_pid_entries_shape(pids, d, package);
                let v = pid_of_entry(es[k], package)->0;
                if pid_entries(pids, d, package) != pids {
                    let w = choose|w: usize| pid_entries(pids, d, package) == pairs_insert(pids, package, w);
                    crate::table::lemma_pairs_insert_twice(pids, package, w, v);
                }
            }
        }
        assert((forall|k: int| 0 <= k < es.len() ==> pid_of_entry(#[trigger] es[k], package) is None) ==> pid_entries(
            pids, es, package) == pids) by {
            if forall|k: int| 0 <= k < es.len() ==> pid_of_entry(#[trigger] es[k], package) is None {
                assert forall|j: int| 0 <= j < d.len() implies pid_of_entry(#[trigger] d[j], package) is None by {
                    assert(d[j] == es[j]);
                }
            }
        }
    }
}

/// Scanning `/proc` only ever records pids above 100, and only under the
/// package asked for.
pub proof fn law_pid_entries(pids: Seq<Pair>, es: Seq<(Option<Seq<char>>, Option<Seq<char>>)>, package: Seq<char>)
    requires
        forall|i: int| 0 <= i < pids.len() ==> (#[trigger] pids[i]).1 > LAST_SYSTEM_PID && pids[i].0 == package,
    ensures
        forall|i: int|
            0 <= i < pid_entries(pids, es, package).len() ==> (#[trigger] pid_entries(pids, es, package)[i]).1
                > LAST_SYSTEM_PID && pid_entries(pids, es, package)[i].0 == package,
    decreases es.len(),
{
    if es.len() > 0 {
        law_pid_entries(pids, es.drop_last(), package);
        let prev = pid_entries(pids, es.drop_last(), package);
        let e = es.last();
        if let Some(n) = e.0 {
            if let Some(pid) = parse_usize(n) {
                if pid > LAST_SYSTEM_PID {
                    if let Some(c) = e.1 {
                        if starts_with(c, package) {
                            crate::table::lemma_key_index(prev, package);
                            let q = pairs_insert(prev, package, pid);
                            assert forall|i: int| 0 <= i < q.len() implies (#[trigger] q[i]).1 > LAST_SYSTEM_PID
                                && q[i].0 == package by {
                                if i < prev.len() && q[i] == prev[i] {
                                    assert(prev[i].1 > LAST_SYSTEM_PID);
                                }
                            }
                        }
                    }
                }
            }
        }
    }
}

/// The uids that the names of `names` have in `packages`.
pub open spec fn uids_of_names(names: Set<Seq<char>>, packages: Seq<Pair>) -> Set<usize> {
    Set::new(|u: usize| exists|n: Seq<char>| #[trigger] names.contains(n) && pairs_get(packages, n) == Some(u))
}

/// The packages, the last pid found for each, and the whitelisted uids.
pub struct App {
    pids: PackageTable,
    packages: PackageTable,
    whitelist: HashSet<usize>,
}

impl App {
    pub closed spec fn packages(&self) -> Seq<Pair> {
        self.packages.pairs()
    }

    pub closed spec fn pids(&self) -> Seq<Pair> {
        self.pids.pairs()
    }

    pub closed spec fn whitelisted(&self) -> Set<usize> {
        self.whitelist@
    }

    /// An app with the packages of `packages_list` (the text of
    /// `packages.list`, or `None` when it could not be read). When the text
    /// cannot be read or holds a bad uid, the app starts with no packages.
    pub fn new(packages_list: Option<&str>) -> (r: Result<Self, AppError>)
        ensures
            r matches Ok(app) && app.pids() == Seq::<Pair>::empty()
                && app.whitelisted() == Set::<usize>::empty() && app.packages() == match packages_list {
                Some(c) => match packages_file(lines_of(c@)) {
                    Ok(p) => p,
                    Err(_) => Seq::<Pair>::empty(),
                },
                None => Seq::<Pair>::empty(),
            },
    {
        let mut s = App { pids: PackageTable::new(), packages: PackageTable::new(), whitelist: HashSet::new() };
        match packages_list {
            Some(c) => {
                let _ = s.refresh_packages(c);
            },
            None => {},
        }
        Ok(s)
    }

    /// Replaces the packages with those of `content` (the text of
    /// `packages.list`). A bad uid fails and leaves the packages as they were.
    pub fn refresh_packages(&mut self, content: &str) -> (r: Result<(), AppError>)
        ensures
            match packages_file(lines_of(content@)) {
                Ok(p) => r is Ok && final(self).packages() == p,
                Err((u, l)) => r matches Err(AppError::InvalidUid { uid, line }) && uid@ == u
                    && line@ == l && final(self).packages() == old(self).packages(),
            },
            final(self).pids() == old(self).pids(),
            final(self).whitelisted() == old(self).whitelisted(),
            keeps_whitelist(*old(self), *final(self)),
    {
        let text = chars_of(content);
        let lines = lines_exec(&text);
        let ghost ls = lines_of(text@);
        let mut packages = PackageTable::new();
        let mut k: usize = 0;
        assert(ls.take(0) =~= Seq::<Seq<char>>::empty());
        while k < lines.len()
            invariant
                k <= lines.len(),
                lines.len() == ls.len(),
                ls == lines_of(content@),
                forall|j: int| 0 <= j < lines.len() ==> (#[trigger] lines[j])@ == ls[j],
                packages_file(ls.take(k as int)) == Ok::<Seq<Pair>, (Seq<char>, Seq<char>)>(packages.pairs()),
            decreases lines.len() - k,
        {
            let line = &lines[k];
            assert(ls.take(k + 1).drop_last() =~= ls.take(k as int));
            assert(ls.take(k + 1).last() == line@);
            let line_str = string_of(line.as_slice());
            let pkg = capture_group(PKG_PATTERN, line_str.as_str(), 1);
            let uid = capture_group(PKG_PATTERN, line_str.as_str(), 2);
            match (pkg, uid) {
                (Some(pkg), Some(uid)) => {
                    match parse_usize_exec(&chars_of(uid.as_str())) {
                        Some(u) => {
                            packages.insert_chars(chars_of(pkg.as_str()), u);
                        },
                        None => {
                            proof {
                                lemma_packages_file_err_prefix(ls, k as int + 1);
                            }
                            return Err(AppError::InvalidUid { uid, line: line_str });
                        },
                    }
                },
                _ => {},
            }
            k = k + 1;
        }
        assert(ls.take(k as int) =~= ls);
        self.packages = packages;
        Ok(())
    }

    /// Records, for `package`, the pid of each `/proc` entry above 100 whose
    /// command line starts with the package name (a later one replaces an
    /// earlier one), and returns every recorded pid.
    pub fn get_pids(&mut self, package: &str, entries: &Vec<ProcDirEntry>) -> (r: PackageTable)
        ensures
            final(self).pids() == pid_entries(old(self).pids(), entries_view(entries@), package@),
            r.pairs() == final(self).pids(),
            final(self).packages() == old(self).packages(),
            final(self).whitelisted() == old(self).whitelisted(),
            keeps_whitelist(*old(self), *final(self)),
    {
        let ghost es = entries_view(entries@);
        let ghost start = self.pids.pairs();
        let name = chars_of(package);
        let mut k: usize = 0;
        assert(es.take(0) =~= Seq::<(Option<Seq<char>>, Option<Seq<char>>)>::empty());
        while k < entries.len()
            invariant
                k <= entries.len(),
                es == entries_view(entries@),
                name@ == package@,
                self.pids.pairs() == pid_entries(start, es.take(k as int), package@),
                self.packages == old(self).packages,
                self.whitelist == old(self).whitelist,
            decreases entries.len() - k,
        {
            assert(es.take(k + 1).drop_last() =~= es.take(k as int));
            let e = &entries[k];
            assert(es.take(k + 1).last() == (opt_view(e.name), opt_view(e.cmdline)));
            match &e.name {
                Some(n) => {
                    match parse_usize_exec(&chars_of(n.as_str())) {
                        Some(pid) => {
                            if pid > LAST_SYSTEM_PID {
                                match &e.cmdline {
                                    Some(c) => {
                                        if starts_with_exec(&chars_of(c.as_str()), &name) {
                                            self.pids.insert_chars(chars_of(package), pid);
                                        }
                                    },
                                    None => {},
                                }
                            }
                        },
                        None => {},
                    }
                },
                None => {},
            }
            k = k + 1;
        }
        assert(es.take(k as int) =~= es);
        self.pids.copy()
    }

    /// Whitelists the uid of each package of `packages`; every one of them
    /// must be installed.
    pub fn add_whitelist(&mut self, packages: &NameSet)
        requires
            forall|n: Seq<char>| #[trigger] packages.set().contains(n) ==> pairs_get(old(self).packages(), n) is Some,
        ensures
            final(self).whitelisted() == old(self).whitelisted().union(uids_of_names(packages.set(), old(self).packages())),
            forall|n: Seq<char>| #[trigger] packages.set().contains(n) ==> final(self).whitelisted().contains(
                pairs_get(old(self).packages(), n)->0,
            ),
            final(self).packages() == old(self).packages(),
            final(self).pids() == old(self).pids(),
            keeps_whitelist(*old(self), *final(self)),
    {
        let ghost names = packages.seq();
        let ghost start = self.whitelist@;
        let mut i: usize = 0;
        while i < packages.len()
            invariant
                i <= names.len(),
                names == packages.seq(),
                forall|n: Seq<char>| #[trigger] packages.set().contains(n) ==> pairs_get(self.packages.pairs(), n) is Some,
                self.packages == old(self).packages,
                self.pids == old(self).pids,
                self.whitelist@ == start.union(uids_of_names(names.take(i as int).to_set(), self.packages.pairs())),
            decreases names.len() - i,
        {
            let n = packages.name_chars_at(i);
            assert(packages.set().contains(names[i as int]));
            let u = self.get_uid_chars(n);
            self.whitelist.insert(u);
            proof {
                let p = self.packages.pairs();
                let t0 = names.take(i as int);
                let t1 = names.take(i + 1);
                assert(t1 =~= t0.push(names[i as int]));
                assert forall|x: usize| #[trigger] uids_of_names(t1.to_set(), p).contains(x)
                    == uids_of_names(t0.to_set(), p).insert(u).contains(x) by {
                    if uids_of_names(t1.to_set(), p).contains(x) {
                        let m = choose|m: Seq<char>| #[trigger] t1.to_set().contains(m) && pairs_get(p, m) == Some(x);
                        let j = choose|j: int| 0 <= j < t1.len() && #[trigger] t1[j] == m;
                        if j < i {
                            assert(t0[j] == m);
                            assert(t0.to_set().contains(m));
                        }
                    }
                    if uids_of_names(t0.to_set(), p).contains(x) {
                        let m = choose|m: Seq<char>| #[trigger] t0.to_set().contains(m) && pairs_get(p, m) == Some(x);
                        let j = choose|j: int| 0 <= j < t0.len() && #[trigger] t0[j] == m;
                        assert(t1[j] == m);
                        assert(t1.to_set().contains(m));
                    }
                    if x == u {
                        assert(t1[i as int] == names[i as int]);
                        assert(t1.to_set().contains(names[i as int]));
                    }
                }
                assert(uids_of_names(t1.to_set(), p) =~= uids_of_names(t0.to_set(), p).insert(u));
            }
            i = i + 1;
        }
        proof {
            assert(names.take(i as int) =~= names);
            assert(uids_of_names(names.to_set(), self.packages.pairs()) =~= uids_of_names(packages.set(), self.packages.pairs()));
            assert forall|n: Seq<char>| #[trigger] packages.set().contains(n) implies self.whitelist@.contains(
                pairs_get(self.packages.pairs(), n)->0,
            ) by {
                assert(uids_of_names(packages.set(), self.packages.pairs()).contains(pairs_get(self.packages.pairs(), n)->0));
            }
        }
    }

    /// Whether `package` is installed.
    pub fn contains(&self, package: &str) -> (b: bool)
        ensures
            b == (pairs_get(self.packages(), package@) is Some),
    {
        self.packages.contains_key(package)
    }

    fn get_uid_chars(&self, package: &Vec<char>) -> (u: usize)
        requires
            pairs_get(self.packages(), package@) is Some,
        ensures
            pairs_get(self.packages(), package@) == Some(u),
    {
        match self.packages.get_chars(package) {
            Some(u) => u,
            None => 0,
        }
    }

    /// The uid of an installed package.
    pub fn get_uid(&self, package: &str) -> (u: usize)
        requires
            pairs_get(self.packages(), package@) is Some,
        ensures
            pairs_get(self.packages(), package@) == Some(u),
    {
        self.get_uid_chars(&chars_of(package))
    }

    /// Whether `uid` is whitelisted.
    pub fn is_whitelist(&self, uid: usize) -> (b: bool)
        ensures
            b == self.whitelisted().contains(uid),
    {
        self.whitelist.contains(&uid)
    }
}

/// `after` still whitelists every uid that `before` whitelists.
pub open spec fn keeps_whitelist(before: App, after: App) -> bool {
    before.whitelisted().subset_of(after.whitelisted())
}

/// The whitelist only grows: through any run of calls that each keep it
/// (`add_whitelist`, `refresh_packages` and `get_pids` all do), a uid
/// whitelisted at one point is whitelisted at every later one.
pub proof fn law_whitelist_only_grows(run: Seq<App>, i: int, j: int)
    requires
        forall|k: int| 0 <= k < run.len() - 1 ==> #[trigger] keeps_whitelist(run[k], run[k + 1]),
        0 <= i <= j < run.len(),
    ensures
        run[i].whitelisted().subset_of(run[j].whitelisted()),
    decreases j - i,
{
    if i < j {
        law_whitelist_only_grows(run, i, j - 1);
        let k = j - 1;
        assert(keeps_whitelist(run[k], run[k + 1]));
    }
}

proof fn lemma_packages_file_err_prefix(ls: Seq<Seq<char>>, k: int)
    requires
        0 <= k <= ls.len(),
        packages_file(ls.take(k)) is Err,
    ensures
        packages_file(ls) == packages_file(ls.take(k)),
    decreases ls.len() - k,
{
    if k < ls.len() {
        assert(ls.take(k + 1).drop_last() =~= ls.take(k));
        lemma_packages_file_err_prefix(ls, k + 1);
    } else {
        assert(ls.take(k) =~= ls);
    }
}

} // verus!
