//! The build helper: the cargo commands it runs and the paths it uses.
use vstd::prelude::*;
use crate::text::strings_view;

verus! {

/// A program to run: its arguments and the environment variables to set,
/// each in order.
pub struct CommandSpec {
    pub program: String,
    pub args: Vec<String>,
    pub envs: Vec<(String, String)>,
}

pub open spec fn envs_view(e: Seq<(String, String)>) -> Seq<(Seq<char>, Seq<char>)> {
    Seq::new(e.len(), |i: int| (e[i].0@, e[i].1@))
}

pub open spec fn flag(on: bool, f: Seq<char>) -> Seq<Seq<char>> {
    if on {
        seq![f]
    } else {
        Seq::<Seq<char>>::empty()
    }
}

pub open spec fn linker_env() -> (Seq<char>, Seq<char>) {
    ("RUSTFLAGS"@, "-C default-linker-libraries"@)
}

pub open spec fn ndk_args() -> Seq<Seq<char>> {
    seq!["ndk"@, "-t"@, "arm64-v8a"@]
}

pub open spec fn ndk_envs() -> Seq<(Seq<char>, Seq<char>)> {
    seq![linker_env(), ("CARGO_CFG_BPF_TARGET_ARCH"@, "aarch64"@)]
}

fn push_arg(args: &mut Vec<String>, a: &str)
    ensures
        strings_view(final(args)@) == strings_view(old(args)@).push(a@),
{
    args.push(a.to_owned());
    assert(strings_view(args@) =~= strings_view(old(args)@).push(a@));
}

fn push_env(envs: &mut Vec<(String, String)>, k: &str, v: &str)
    ensures
        envs_view(final(envs)@) == envs_view(old(envs)@).push((k@, v@)),
{
    envs.push((k.to_owned(), v.to_owned()));
    assert(envs_view(envs@) =~= envs_view(old(envs)@).push((k@, v@)));
}

/// `cargo ndk -t arm64-v8a`, linking Android's default libraries.
pub fn cargo_ndk() -> (c: CommandSpec)
    ensures
        c.program@ == "cargo"@,
        strings_view(c.args@) == ndk_args(),
        envs_view(c.envs@) == ndk_envs(),
{
    let mut args: Vec<String> = Vec::new();
    assert(strings_view(args@) =~= Seq::<Seq<char>>::empty());
    push_arg(&mut args, "ndk");
    push_arg(&mut args, "-t");
    push_arg(&mut args, "arm64-v8a");
    let mut envs: Vec<(String, String)> = Vec::new();
    assert(envs_view(envs@) =~= Seq::<(Seq<char>, Seq<char>)>::empty());
    push_env(&mut envs, "RUSTFLAGS", "-C default-linker-libraries");
    push_env(&mut envs, "CARGO_CFG_BPF_TARGET_ARCH", "aarch64");
    assert(strings_view(args@) =~= ndk_args());
    assert(envs_view(envs@) =~= ndk_envs());
    CommandSpec { program: "cargo".to_owned(), args, envs }
}

/// `cargo ndk ... check` for the Android target.
pub fn check(release: bool, verbose: bool) -> (c: CommandSpec)
    ensures
        c.program@ == "cargo"@,
        strings_view(c.args@) == ndk_args() + seq!["check"@, "--target"@, "aarch64-linux-android"@]
            + flag(release, "--release"@) + flag(verbose, "--verbose"@),
        envs_view(c.envs@) == ndk_envs().push(linker_env()),
{
    let mut c = cargo_ndk();
    push_arg(&mut c.args, "check");
    push_arg(&mut c.args, "--target");
    push_arg(&mut c.args, "aarch64-linux-android");
    push_env(&mut c.envs, "RUSTFLAGS", "-C default-linker-libraries");
    let ghost base = strings_view(c.args@);
    if release {
        push_arg(&mut c.args, "--release");
    }
    let ghost mid = strings_view(c.args@);
    assert(mid =~= base + flag(release, "--release"@));
    if verbose {
        push_arg(&mut c.args, "--verbose");
    }
    assert(strings_view(c.args@) =~= mid + flag(verbose, "--verbose"@));
    assert(base =~= ndk_args() + seq!["check"@, "--target"@, "aarch64-linux-android"@]);
    c
}

/// `cargo ndk ... build` for the Android target.
pub fn build_command(release: bool, verbose: bool) -> (c: CommandSpec)
    ensures
        c.program@ == "cargo"@,
        strings_view(c.args@) == ndk_args() + seq!["build"@, "--target"@, "aarch64-linux-android"@]
            + flag(release, "--release"@) + flag(verbose, "--verbose"@),
        envs_view(c.envs@) == ndk_envs(),
{
    let mut c = cargo_ndk();
    push_arg(&mut c.args, "build");
    push_arg(&mut c.args, "--target");
    push_arg(&mut c.args, "aarch64-linux-android");
    let ghost base = strings_view(c.args@);
    if release {
        push_arg(&mut c.args, "--release");
    }
    let ghost mid = strings_view(c.args@);
    assert(mid =~= base + flag(release, "--release"@));
    if verbose {
        push_arg(&mut c.args, "--verbose");
    }
    assert(strings_view(c.args@) =~= mid + flag(verbose, "--verbose"@));
    assert(base =~= ndk_args() + seq!["build"@, "--target"@, "aarch64-linux-android"@]);
    c
}

/// `cargo fmt --all`.
pub fn format(verbose: bool) -> (c: CommandSpec)
    ensures
        c.program@ == "cargo"@,
        strings_view(c.args@) == seq!["fmt"@, "--all"@] + flag(verbose, "--verbose"@),
        c.envs@.len() == 0,
{
    let mut args: Vec<String> = Vec::new();
    assert(strings_view(args@) =~= Seq::<Seq<char>>::empty());
    push_arg(&mut args, "fmt");
    push_arg(&mut args, "--all");
    let ghost base = strings_view(args@);
    if verbose {
        push_arg(&mut args, "--verbose");
    }
    assert(strings_view(args@) =~= base + flag(verbose, "--verbose"@));
    assert(base =~= seq!["fmt"@, "--all"@]);
    CommandSpec { program: "cargo".to_owned(), args, envs: Vec::new() }
}

/// `cargo clean`.
pub fn clean_command() -> (c: CommandSpec)
    ensures
        c.program@ == "cargo"@,
        strings_view(c.args@) == seq!["clean"@],
        c.envs@.len() == 0,
{
    let mut args: Vec<String> = Vec::new();
    assert(strings_view(args@) =~= Seq::<Seq<char>>::empty());
    push_arg(&mut args, "clean");
    assert(strings_view(args@) =~= seq!["clean"@]);
    CommandSpec { program: "cargo".to_owned(), args, envs: Vec::new() }
}

/// The directory of the module's files.
pub fn module_dir() -> (p: String)
    ensures
        p@ == "modules"@,
{
    "modules".to_owned()
}

/// The staging directory of a build.
pub fn temp_dir(release: bool) -> (p: String)
    ensures
        p@ == (if release {
            "output/.temp/release"@
        } else {
            "output/.temp/debug"@
        }),
{
    if release {
        "output/.temp/release".to_owned()
    } else {
        "output/.temp/debug".to_owned()
    }
}

/// The binary that a build produces.
pub fn bin_path(release: bool) -> (p: String)
    ensures
        p@ == (if release {
            "target/aarch64-linux-android/release/Freezer-rs"@
        } else {
            "target/aarch64-linux-android/debug/Freezer-rs"@
        }),
{
    if release {
        "target/aarch64-linux-android/release/Freezer-rs".to_owned()
    } else {
        "target/aarch64-linux-android/debug/Freezer-rs".to_owned()
    }
}

/// The zip archive that a build produces.
pub fn package_path(release: bool) -> (p: String)
    ensures
        p@ == (if release {
            "output/Freezer-rs-(release).zip"@
        } else {
            "output/Freezer-rs-(debug).zip"@
        }),
{
    if release {
        "output/Freezer-rs-(release).zip".to_owned()
    } else {
        "output/Freezer-rs-(debug).zip".to_owned()
    }
}

} // verus!
