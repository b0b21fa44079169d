use freezer_rs::freeze::app::{App, AppError, ProcessEntry};
use freezer_rs::freeze::config::Config;
use freezer_rs::freeze::freezer::Freezer;
use freezer_rs::freeze::whitelist::is_builtin_whitelisted;
use freezer_rs::freeze::{Freeze, FreezeMode, PendingHandleList, V1, V2};
use freezer_rs::mounts::CgroupMounts;
use freezer_rs::table::{NameSet, PackageTable};
use freezer_rs::text::chars_of;

const PACKAGES: &str = "package:com.tencent.mm uid:10234\n\
package:com.miui.home uid:10050\n\
package:com.android.shell uid:2000\n\
package:com.vendor.daemon uid:999\n\
not a package line\n\
package:com.nouid\n\
package:  com.spaced   uid:10301 extra\r\n\
package:package:com.twice uid:10400\n";

fn app() -> App {
    App::new(PACKAGES).unwrap()
}

#[test]
fn package_list_is_read() {
    let a = app();
    assert_eq!(a.package_uid("com.tencent.mm"), Some(10234));
    assert_eq!(a.package_uid("com.miui.home"), Some(10050));
    assert_eq!(a.package_uid("com.android.shell"), Some(2000));
    assert_eq!(a.package_uid("com.spaced"), Some(10301));
    assert_eq!(a.package_uid("com.twice"), Some(10400));
    assert_eq!(a.package_uid("com.nouid"), None);
    assert_eq!(a.home_uid, 0);
    assert!(!a.has_home());
    assert_eq!(a.VisiblePackage.len(), 0);
    assert_eq!(a.BackGroundPackages.len(), 0);
}

#[test]
fn system_uids_are_left_out() {
    let a = app();
    assert_eq!(a.package_uid("com.vendor.daemon"), None);
}

#[test]
fn builtin_whitelist_marks_uids() {
    let a = app();
    assert!(a.is_whitelist(10050));
    assert!(!a.is_whitelist(10234));
    assert!(is_builtin_whitelisted(&chars_of("com.google.android.gms")));
    assert!(is_builtin_whitelisted(&chars_of("com.miui.home")));
    assert!(is_builtin_whitelisted(&chars_of("com xiaomi.aireco")));
    assert!(!is_builtin_whitelisted(&chars_of("com.tencent.mm")));
    assert!(!is_builtin_whitelisted(&chars_of("com.miui")));
}

#[test]
fn bad_uid_fails() {
    match App::new("package:com.a uid:10001\npackage:com.b uid:12x\npackage:com.c uid:bad\n") {
        Err(AppError::InvalidUid(u)) => assert_eq!(u, "12x"),
        _ => panic!("expected an invalid uid"),
    }
    match App::new("package:com.b uid:\n") {
        Err(AppError::InvalidUid(u)) => assert_eq!(u, ""),
        _ => panic!("expected an invalid uid"),
    }
}

#[test]
fn empty_list_gives_no_packages() {
    let a = App::new("").unwrap();
    assert_eq!(a.package_uid("com.tencent.mm"), None);
}

const STACK: &[&str] = &[
    "RootTask id=1 displayId=0",
    "  mActivityType=home mode=fullscreen",
    "  taskId=1: com.miui.home/.Launcher visible=true topActivity=ComponentInfo{com.miui.home/com.miui.home.launcher.Launcher}",
    "  taskId=7: com.tencent.mm/.ui.LauncherUI visible=true topActivity=ComponentInfo{com.tencent.mm/com.tencent.mm.ui.LauncherUI}",
    "  taskId=9: com.spaced/.Main visible=false topActivity=ComponentInfo{com.spaced/com.spaced.Main}",
    "  taskId=10: com.unknown/.Main visible=true topActivity=ComponentInfo{com.unknown/com.unknown.Main}",
    " taskId=11: com.twice/.Main visible=true topActivity=ComponentInfo{com.twice/com.twice.Main}",
];

#[test]
fn stack_records_visible_and_background() {
    let mut a = app();
    a.ReflashPackages(&STACK.join("\n"));
    assert!(a.has_home());
    // every known task after the home marker sets the home uid: the last is com.spaced
    assert_eq!(a.home_uid, 10301);
    assert_eq!(a.VisiblePackage.len(), 1);
    assert_eq!(a.VisiblePackage.get("com.tencent.mm"), Some(10234));
    assert_eq!(a.BackGroundPackages.len(), 1);
    assert_eq!(a.BackGroundPackages.get("com.spaced"), Some(10301));
    // one leading space is not a task line
    assert_eq!(a.VisiblePackage.get("com.twice"), None);
}

#[test]
fn stack_home_uid_follows_every_task_after_marker() {
    let mut a = app();
    a.ReflashPackages("mActivityType=home\n  taskId=3: x visible=false ComponentInfo{com.tencent.mm/a}\n  taskId=4: y visible=false ComponentInfo{com.spaced/b}\n");
    assert_eq!(a.home_uid, 10301);
    assert_eq!(a.BackGroundPackages.len(), 2);
    // a second reading no longer looks for the home screen
    a.ReflashPackages("mActivityType=home\n  taskId=3: x visible=true ComponentInfo{com.twice/a}\n");
    assert_eq!(a.home_uid, 10301);
    assert_eq!(a.VisiblePackage.get("com.twice"), Some(10400));
    // entries recorded before stay
    assert_eq!(a.BackGroundPackages.len(), 2);
}

#[test]
fn stack_uses_last_brace_before_slash() {
    let mut a = app();
    a.ReflashPackages("  taskId=2: {weird visible=true ComponentInfo{com.tencent.mm/x}\n");
    assert_eq!(a.VisiblePackage.get("com.tencent.mm"), Some(10234));
}

#[test]
fn pids_of_a_uid() {
    let procs = vec![
        ProcessEntry::Status { pid: 1, ruid: 0 },
        ProcessEntry::Status { pid: 501, ruid: 10234 },
        ProcessEntry::NoStatus,
        ProcessEntry::Status { pid: 777, ruid: 10234 },
        ProcessEntry::Status { pid: 778, ruid: 10050 },
    ];
    assert_eq!(App::GetPids(&procs, 10234).unwrap(), vec![501, 777]);
    assert_eq!(App::GetPids(&procs, 42).unwrap(), Vec::<usize>::new());
}

#[test]
fn unreadable_process_fails() {
    let procs = vec![ProcessEntry::Status { pid: 501, ruid: 10234 }, ProcessEntry::Unreadable];
    assert!(matches!(App::GetPids(&procs, 10234), Err(AppError::ProcessUnreadable)));
}

fn table(entries: &[(&str, usize)]) -> PackageTable {
    let mut t = PackageTable::new();
    for (k, v) in entries {
        t.insert(k, *v);
    }
    t
}

#[test]
fn update_adds_background_uids() {
    let mut f = Freeze::new(app());
    f.UpdateAppProcess(table(&[("com.a", 10001), ("com.b", 10002)]), table(&[("com.v", 10009)]));
    let l = f.pending_list();
    assert!(l.contains(&10001) && l.contains(&10002));
    assert_eq!(l.len(), 2);
}

#[test]
fn update_removes_visible_background_uid() {
    let mut f = Freeze::new(app());
    f.UpdateAppProcess(table(&[("com.a", 10001)]), table(&[("com.v", 10009)]));
    assert!(f.pending_list().contains(&10001));
    // the same uid now both in the background and visible
    f.UpdateAppProcess(table(&[("com.a", 10001)]), table(&[("com.a", 10001)]));
    assert!(!f.pending_list().contains(&10001));
}

#[test]
fn update_order_of_visible_entries_matters() {
    let mut f = Freeze::new(app());
    // visible entries in order: same uid (remove) then another (add): ends added
    f.UpdateAppProcess(table(&[("com.a", 1)]), table(&[("com.a", 1), ("com.v", 2)]));
    assert!(f.pending_list().contains(&1));
    let mut g = Freeze::new(app());
    g.UpdateAppProcess(table(&[("com.a", 1)]), table(&[("com.v", 2), ("com.a", 1)]));
    assert!(!g.pending_list().contains(&1));
}

#[test]
fn update_without_visible_changes_nothing() {
    let mut f = Freeze::new(app());
    f.UpdateAppProcess(table(&[("com.a", 10001)]), table(&[]));
    assert!(f.pending_list().is_empty());
}

#[test]
fn update_leaves_other_uids() {
    let mut f = Freeze::new(app());
    f.UpdateAppProcess(table(&[("com.a", 7)]), table(&[("com.v", 8)]));
    f.UpdateAppProcess(table(&[("com.b", 9)]), table(&[("com.b", 9)]));
    assert!(f.pending_list().contains(&7));
    assert!(!f.pending_list().contains(&9));
}

#[test]
fn pending_list_add_remove() {
    let mut p = PendingHandleList::new();
    p.add(5);
    p.add(6);
    p.remove(5);
    assert!(!p.contains(5));
    assert!(p.contains(6));
}

fn mounts(v2_uid: bool, v2_procs: bool, v1: bool) -> CgroupMounts {
    CgroupMounts {
        v2_uid_freeze: v2_uid,
        v2_frozen_freeze: false,
        v2_unfrozen_freeze: false,
        v2_frozen_procs: v2_procs,
        v2_unfrozen_procs: v2_procs,
        v1_frozen_procs: v1,
        v1_unfrozen_procs: v1,
    }
}

#[test]
fn auto_mode_prefers_v2_groups() {
    let mut f = Freezer::new(PendingHandleList::new());
    assert_eq!(f.current_mode(), FreezeMode::AUTO);
    f.SetFreezerMode(FreezeMode::AUTO, &mounts(true, true, true));
    assert_eq!(f.current_mode(), FreezeMode::V2(V2::Frozen));
    f.SetFreezerMode(FreezeMode::AUTO, &mounts(true, false, true));
    assert_eq!(f.current_mode(), FreezeMode::V2(V2::Uid));
    f.SetFreezerMode(FreezeMode::AUTO, &mounts(false, false, true));
    assert_eq!(f.current_mode(), FreezeMode::V1(V1::Frozen));
    f.SetFreezerMode(FreezeMode::AUTO, &mounts(false, false, false));
    assert_eq!(f.current_mode(), FreezeMode::SIGSTOP);
}

#[test]
fn requested_mode_needs_its_cgroup() {
    let mut f = Freezer::new(PendingHandleList::new());
    f.SetFreezerMode(FreezeMode::V1(V1::Frozen), &mounts(true, true, false));
    assert_eq!(f.current_mode(), FreezeMode::AUTO);
    f.SetFreezerMode(FreezeMode::V2(V2::Uid), &mounts(true, false, false));
    assert_eq!(f.current_mode(), FreezeMode::V2(V2::Uid));
    f.SetFreezerMode(FreezeMode::V2(V2::Frozen), &mounts(true, false, false));
    assert_eq!(f.current_mode(), FreezeMode::V2(V2::Uid));
    f.SetFreezerMode(FreezeMode::SIGSTOP, &mounts(true, true, true));
    assert_eq!(f.current_mode(), FreezeMode::SIGSTOP);
}

#[test]
fn auto_settles_on_repeat() {
    for m in [mounts(true, true, true), mounts(false, false, true), mounts(false, false, false)] {
        let mut f = Freezer::new(PendingHandleList::new());
        f.SetFreezerMode(FreezeMode::AUTO, &m);
        let picked = f.current_mode();
        assert_ne!(picked, FreezeMode::AUTO);
        f.SetFreezerMode(picked, &m);
        assert_eq!(f.current_mode(), picked);
    }
}

#[test]
fn config_is_replaced() {
    let mut c = Config { mode: FreezeMode::AUTO, whitelist: NameSet::new() };
    let mut w = NameSet::new();
    w.insert("com.a");
    c.load_config(Config { mode: FreezeMode::SIGSTOP, whitelist: w });
    assert_eq!(c.mode, FreezeMode::SIGSTOP);
    assert!(c.whitelist.contains("com.a"));
}

#[test]
fn repeated_readings_keep_entries_known() {
    let mut a = app();
    for out in [STACK.join("\n"), "  taskId=4: y visible=true ComponentInfo{com.spaced/b}".to_string(), String::new()] {
        a.ReflashPackages(&out);
        for t in [&a.VisiblePackage, &a.BackGroundPackages] {
            for i in 0..t.len() {
                let uid = a.package_uid(&t.key_at(i));
                assert_eq!(uid, Some(t.value_at(i)));
                assert!(t.value_at(i) >= 1000);
                assert!(!a.is_whitelist(t.value_at(i)));
            }
        }
    }
}
