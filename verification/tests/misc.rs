use freezer_rs::logger::build_type;
use freezer_rs::socket::{xposed_status, XPOSED_MISSING};
use freezer_rs::task::{bin_path, build_command, cargo_ndk, check, clean_command, module_dir, package_path, temp_dir};

#[test]
fn build_type_names() {
    assert_eq!(build_type(true), "debug");
    assert_eq!(build_type(false), "release");
}

#[test]
fn xposed_empty_log_means_inactive() {
    let s = xposed_status("");
    assert!(!s.active);
    assert_eq!(s.reply.as_deref(), Some(XPOSED_MISSING));
    let s = xposed_status("hooked");
    assert!(s.active);
    assert!(s.reply.is_none());
}

#[test]
fn ndk_command() {
    let c = cargo_ndk();
    assert_eq!(c.program, "cargo");
    assert_eq!(c.args, vec!["ndk", "-t", "arm64-v8a"]);
    assert_eq!(
        c.envs,
        vec![
            ("RUSTFLAGS".to_string(), "-C default-linker-libraries".to_string()),
            ("CARGO_CFG_BPF_TARGET_ARCH".to_string(), "aarch64".to_string())
        ]
    );
}

#[test]
fn check_and_build_commands() {
    let c = check(true, false);
    assert_eq!(c.args, vec!["ndk", "-t", "arm64-v8a", "check", "--target", "aarch64-linux-android", "--release"]);
    assert_eq!(c.envs.len(), 3);
    let b = build_command(false, true);
    assert_eq!(b.args, vec!["ndk", "-t", "arm64-v8a", "build", "--target", "aarch64-linux-android", "--verbose"]);
    let f = freezer_rs::task::format(true);
    assert_eq!(f.args, vec!["fmt", "--all", "--verbose"]);
    assert_eq!(clean_command().args, vec!["clean"]);
}

#[test]
fn paths() {
    assert_eq!(module_dir(), "modules");
    assert_eq!(temp_dir(true), "output/.temp/release");
    assert_eq!(temp_dir(false), "output/.temp/debug");
    assert_eq!(bin_path(false), "target/aarch64-linux-android/debug/Freezer-rs");
    assert_eq!(package_path(true), "output/Freezer-rs-(release).zip");
}
