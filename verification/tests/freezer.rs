use std::collections::HashSet;
use freezer_rs::freezer::app::{App, AppError, ProcDirEntry};
use freezer_rs::freezer::cgroup::v1::V1;
use freezer_rs::freezer::cgroup::v2::V2;
use freezer_rs::freezer::cgroup::{Cgroup, WriteOp};
use freezer_rs::freezer::config::ConfigData;
use freezer_rs::freezer::mode::{Mode, V2Mode};
use freezer_rs::freezer::{FreezeTarget, Freezer, PendingHandleList};
use freezer_rs::mounts::CgroupMounts;
use freezer_rs::table::NameSet;

const LIST: &str = "com.tencent.mm 10234 0 /data/data/com.tencent.mm default:targetSdkVersion=33 3003\n\
com.miui.home 10050 0 /data/user/0/com.miui.home platform 1065\n\
com.spaced 10301 1 /data/data/com.spaced default\n\
garbage\n\
com.android.shell 2000 0 /data/data/com.android.shell\n";

fn app() -> App {
    App::new(Some(LIST)).unwrap()
}

#[test]
fn packages_list_is_read() {
    let a = app();
    assert!(a.contains("com.tencent.mm"));
    assert_eq!(a.get_uid("com.tencent.mm"), 10234);
    assert_eq!(a.get_uid("com.spaced"), 10301);
    assert_eq!(a.get_uid("com.android.shell"), 2000);
    // the data directory must be under /data/data
    assert!(!a.contains("com.miui.home"));
    assert!(!a.contains("garbage"));
}

#[test]
fn unreadable_list_gives_no_packages() {
    let a = App::new(None).unwrap();
    assert!(!a.contains("com.tencent.mm"));
}

#[test]
fn bad_uid_keeps_old_packages() {
    let mut a = app();
    let r = a.refresh_packages("com.new 10999 0 /data/data/com.new\ncom.bad 99999999999999999999 0 /data/data/com.bad\n");
    match r {
        Err(AppError::InvalidUid { uid, line }) => {
            assert_eq!(uid, "99999999999999999999");
            assert_eq!(line, "com.bad 99999999999999999999 0 /data/data/com.bad");
        },
        _ => panic!("expected an invalid uid"),
    }
    assert!(a.contains("com.tencent.mm"));
    assert!(!a.contains("com.new"));
    // a bad list at creation leaves the app empty
    let b = App::new(Some("com.bad 99999999999999999999 0 /data/data/com.bad\n")).unwrap();
    assert!(!b.contains("com.bad"));
}

#[test]
fn refresh_replaces_packages() {
    let mut a = app();
    a.refresh_packages("com.new 10999 0 /data/data/com.new\n").unwrap();
    assert!(a.contains("com.new"));
    assert!(!a.contains("com.tencent.mm"));
}

fn entry(name: Option<&str>, cmd: Option<&str>) -> ProcDirEntry {
    ProcDirEntry { name: name.map(|s| s.to_string()), cmdline: cmd.map(|s| s.to_string()) }
}

#[test]
fn pids_by_command_line() {
    let mut a = app();
    let entries = vec![
        entry(Some("1"), Some("init")),
        entry(Some("50"), Some("com.tencent.mm")),
        entry(Some("self"), Some("com.tencent.mm")),
        entry(Some("4321"), Some("com.tencent.mm\0")),
        entry(Some("4400"), None),
        entry(Some("4500"), Some("com.tencent.mm:push\0")),
        entry(Some("4600"), Some("com.other")),
        entry(None, Some("com.tencent.mm")),
    ];
    let pids = a.get_pids("com.tencent.mm", &entries);
    assert_eq!(pids.len(), 1);
    assert_eq!(pids.get("com.tencent.mm"), Some(4500));
    let again = a.get_pids("com.other", &entries);
    assert_eq!(again.len(), 2);
    assert_eq!(again.get("com.other"), Some(4600));
}

#[test]
fn whitelist_from_config() {
    let mut a = app();
    let mut names = NameSet::new();
    names.insert("com.spaced");
    let config = ConfigData { white_list: names };
    a.add_whitelist(&config.white_list);
    assert!(a.is_whitelist(10301));
    assert!(!a.is_whitelist(10234));
}

const STACK: &[&str] = &[
    "  taskId=7: com.tencent.mm/.ui visible=true topActivity=ComponentInfo{com.tencent.mm/com.tencent.mm.ui.LauncherUI}",
    "  taskId=9: com.spaced/.Main visible=false topActivity=ComponentInfo{com.spaced/com.spaced.Main}",
    "  taskId=12: com.android.shell/.Main visible=true topActivity=ComponentInfo{com.android.shell/a}",
    "  taskId=13: com.unknown/.Main visible=true topActivity=ComponentInfo{com.unknown/a}",
];

#[test]
fn visible_apps_found() {
    let mut f = Freezer::new(app());
    let v = f.get_visible_app(&STACK.join("\n"));
    assert_eq!(v, HashSet::from([10234, 2000]));
    let mut names = NameSet::new();
    names.insert("com.android.shell");
    f.add_whitelist(&names);
    let v = f.get_visible_app(&STACK.join("\n"));
    assert_eq!(v, HashSet::from([10234]));
}

fn mounts(uid0: bool, v2_freeze: bool, v1: bool) -> CgroupMounts {
    CgroupMounts {
        v2_uid_freeze: uid0,
        v2_frozen_freeze: v2_freeze,
        v2_unfrozen_freeze: v2_freeze,
        v2_frozen_procs: false,
        v2_unfrozen_procs: false,
        v1_frozen_procs: v1,
        v1_unfrozen_procs: v1,
    }
}

#[test]
fn cgroup_detection_order() {
    let mut f = Freezer::new(app());
    f.prepare_cgroup(&mounts(false, false, false));
    assert_eq!(f.freeze_targets().0, Mode::SIGSTOP);
    f.prepare_cgroup(&mounts(false, false, true));
    assert_eq!(f.freeze_targets().0, Mode::V1);
    f.prepare_cgroup(&mounts(true, true, true));
    assert_eq!(f.freeze_targets().0, Mode::V2);
}

fn texts(ts: &[FreezeTarget]) -> Vec<(bool, String)> {
    ts.iter()
        .map(|t| match t {
            FreezeTarget::UidGroup(d) => (true, d.clone()),
            FreezeTarget::Path(p) => (false, p.clone()),
        })
        .collect()
}

#[test]
fn single_visible_app_leaves_pending() {
    let mut f = Freezer::new(app());
    f.track_visible(&HashSet::from([10234, 10301]));
    f.track_visible(&HashSet::from([10234]));
    f.prepare_cgroup(&mounts(true, false, false));
    let (mode, targets) = f.freeze_targets();
    assert_eq!(mode, Mode::V2);
    assert_eq!(texts(&targets), vec![(true, "/sys/fs/cgroup/uid_10301/".to_string())]);
}

#[test]
fn targets_per_mode() {
    let mut f = Freezer::new(app());
    f.track_visible(&HashSet::from([10234, 10301]));
    let (mode, t) = f.freeze_targets();
    assert_eq!(mode, Mode::SIGSTOP);
    assert_eq!(texts(&t), vec![(false, String::new()), (false, String::new())]);
    f.prepare_cgroup(&mounts(false, true, false));
    let (mode, t) = f.freeze_targets();
    assert_eq!(mode, Mode::V2);
    assert_eq!(texts(&t), vec![(false, "/sys/fs/cgroup/frozen/cgroup.freeze".to_string()); 2]);
    let mut g = Freezer::new(app());
    g.track_visible(&HashSet::from([1, 2, 3]));
    g.prepare_cgroup(&mounts(false, false, true));
    let (mode, t) = g.freeze_targets();
    assert_eq!(mode, Mode::V1);
    assert_eq!(texts(&t), vec![(false, "/dev/freezer/frozen/cgroup.procs".to_string()); 3]);
}

#[test]
fn pid_entries_selected() {
    let names: Vec<String> = ["cgroup.procs", "pid_123", "pid_", "xpid_9", "pid_77"].iter().map(|s| s.to_string()).collect();
    assert_eq!(Freezer::select_pid_entries(&names), vec![1, 2, 4]);
}

fn ops(v: &[WriteOp]) -> Vec<(String, Vec<u8>, bool)> {
    v.iter().map(|o| (o.path.clone(), o.data.clone(), o.check_exists)).collect()
}

#[test]
fn v1_writes_its_uid() {
    let v1 = V1::new();
    assert_eq!(ops(&v1.frozen()), vec![("/dev/freezer/frozen/cgroup.procs".to_string(), vec![0], true)]);
    assert_eq!(ops(&v1.unfrozen()), vec![("/dev/freezer/unfrozen/cgroup.procs".to_string(), vec![0], true)]);
}

#[test]
fn v2_freezes_paths_then_uids() {
    let mut v2 = V2::new();
    v2.set_mode(V2Mode::Frozen);
    let paths = vec!["/a/cgroup.freeze".to_string(), "/b/cgroup.freeze".to_string()];
    let r = ops(&v2.frozen(&paths, &HashSet::from([300usize])));
    assert_eq!(
        r,
        vec![
            ("/a/cgroup.freeze".to_string(), vec![b'1'], true),
            ("/b/cgroup.freeze".to_string(), vec![b'1'], true),
            ("/sys/fs/cgroup/frozen/cgroup.freeze".to_string(), vec![44], false),
        ]
    );
    assert_eq!(ops(&v2.unfrozen()), vec![("/dev/freezer/unfrozen/cgroup.procs".to_string(), vec![0], true)]);
}

#[test]
fn cgroup_dispatch() {
    let c = Cgroup::new();
    let uids = HashSet::from([5usize, 6]);
    let paths = vec!["/p".to_string()];
    assert!(c.frozen(Mode::SIGSTOP, &paths, &uids).is_empty());
    assert_eq!(ops(&c.frozen(Mode::V1, &paths, &uids)).len(), 1);
    let r = ops(&c.frozen(Mode::V2, &paths, &uids));
    assert_eq!(r.len(), 3);
    let mut bytes: Vec<u8> = r[1..].iter().map(|o| o.1[0]).collect();
    bytes.sort();
    assert_eq!(bytes, vec![5, 6]);
    // thawing with v1 writes to the frozen group, as freezing does
    assert_eq!(ops(&c.unfrozen(Mode::V1, &paths, &uids)), vec![("/dev/freezer/frozen/cgroup.procs".to_string(), vec![0], true)]);
    assert_eq!(ops(&c.unfrozen(Mode::V2, &paths, &uids))[0].0, "/dev/freezer/unfrozen/cgroup.procs");
    assert!(c.unfrozen(Mode::SIGSTOP, &paths, &uids).is_empty());
}

#[test]
fn freeze_ops_use_pending() {
    let mut f = Freezer::new(app());
    f.track_visible(&HashSet::from([10234, 10301]));
    f.prepare_cgroup(&mounts(false, true, false));
    let r = ops(&f.freeze_ops(Mode::V2, &vec!["/sys/fs/cgroup/frozen/cgroup.freeze".to_string()]));
    assert_eq!(r.len(), 3);
    let mut bytes: Vec<u8> = r[1..].iter().map(|o| o.1[0]).collect();
    bytes.sort();
    assert_eq!(bytes, vec![(10301 % 256) as u8, (10234 % 256) as u8]);
}

#[test]
fn pending_list_erase() {
    let mut p = PendingHandleList::new();
    p.add(3);
    p.erase(3);
    assert!(!p.contains(3));
}

#[test]
fn checked_write_needs_file() {
    let checked = WriteOp { path: "/x".to_string(), data: vec![1], check_exists: true };
    let unchecked = WriteOp { path: "/x".to_string(), data: vec![1], check_exists: false };
    assert!(!freezer_rs::freezer::cgroup::may_write(&checked, false));
    assert!(freezer_rs::freezer::cgroup::may_write(&checked, true));
    assert!(freezer_rs::freezer::cgroup::may_write(&unchecked, false));
}

#[test]
fn last_matching_pid_wins_and_whitelist_stays() {
    let mut a = app();
    let entries = vec![entry(Some("4500"), Some("com.tencent.mm")), entry(Some("4600"), Some("com.tencent.mm:x"))];
    let pids = a.get_pids("com.tencent.mm", &entries);
    assert_eq!(pids.get("com.tencent.mm"), Some(4600));
    let mut names = NameSet::new();
    names.insert("com.spaced");
    a.add_whitelist(&names);
    a.refresh_packages("com.new 10999 0 /data/data/com.new\n").unwrap();
    let _ = a.get_pids("com.new", &entries);
    assert!(a.is_whitelist(10301));
}
