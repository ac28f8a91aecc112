use xkbcompose::build_support::{
    choose_source_dir,
    configure_options, cpu_info_from_target, meson_setup_options, env_value, glob_match, is_ignored_source_dir, meson_cross_file_contents,
    needs_autoreconf, quilt_series_patches,
};

fn env() -> Vec<(String, String)> {
    vec![
        ("CC".to_string(), "clang".to_string()),
        ("CFLAGS".to_string(), "-O2".to_string()),
        ("CC".to_string(), "gcc".to_string()),
    ]
}

#[test]
fn env_values() {
    let e = env();
    assert_eq!(env_value(&e, "CC"), Some("clang"));
    assert_eq!(env_value(&e, "CFLAGS"), Some("-O2"));
    assert_eq!(env_value(&e, "AR"), None);
    assert_eq!(env_value(&[], "CC"), None);
}

#[test]
fn cpu_info() {
    assert_eq!(cpu_info_from_target("x86_64-unknown-linux-gnu"), ("x86_64", "x86_64"));
    assert_eq!(cpu_info_from_target("i686-unknown-linux-gnu"), ("x86", "i686"));
    assert_eq!(cpu_info_from_target("i586-unknown-linux-gnu"), ("x86", "i686"));
    assert_eq!(cpu_info_from_target("aarch64-unknown-linux-gnu"), ("aarch64", "aarch64"));
    assert_eq!(cpu_info_from_target("armv7-unknown-linux-gnueabihf"), ("arm", "arm"));
    assert_eq!(cpu_info_from_target("arm-unknown-linux-gnueabi"), ("arm", "arm"));
    assert_eq!(cpu_info_from_target("riscv64gc-unknown-linux-gnu"), ("riscv64", "riscv64"));
    assert_eq!(cpu_info_from_target("powerpc64le-unknown-linux-gnu"), ("unknown", "unknown"));
}

#[test]
fn globs() {
    assert!(glob_match("*.debian.tar.*", "libx11_1.8.4-2.debian.tar.xz"));
    assert!(glob_match("*.debian.tar.*", "x.debian.tar."));
    assert!(!glob_match("*.debian.tar.*", "libx11_1.8.4.orig.tar.xz"));
    assert!(glob_match("*.diff.gz", "libxau_1.0.9-1.diff.gz"));
    assert!(!glob_match("*.diff.gz", "libxau_1.0.9.orig.tar.gz"));
    assert!(glob_match("*", "anything"));
    assert!(glob_match("**", ""));
    assert!(glob_match("*.diff.gz", "libx11_1.8.diff.gz"));
    assert!(!glob_match("*.diff.gz", "libx11_1.8.diff"));
    assert!(glob_match("lib*", "libxkbcommon"));
    assert!(!glob_match("lib*", "xtrans"));
    assert!(glob_match("exact", "exact"));
    assert!(!glob_match("exact", "exactly"));
    assert!(glob_match("*", "anything"));
}

#[test]
fn meson_cross_file() {
    let content = meson_cross_file_contents(&env(), "pkg-config", "aarch64-unknown-linux-gnu");
    assert_eq!(
        content,
        "[binaries]\nc = 'clang'\nar = 'ar'\npkgconfig = 'pkg-config'\n[host_machine]\nsystem = 'linux'\ncpu_family = 'aarch64'\ncpu = 'aarch64'\nendian = 'little'\n[properties]\nneeds_exe_wrapper = true\n"
    );
    let content = meson_cross_file_contents(&[], "pkgconf", "riscv64gc-unknown-none-elf");
    assert_eq!(
        content,
        "[binaries]\nc = 'cc'\nar = 'ar'\npkgconfig = 'pkgconf'\n[host_machine]\nsystem = 'unknown'\ncpu_family = 'riscv64'\ncpu = 'riscv64'\nendian = 'little'\n[properties]\nneeds_exe_wrapper = true\n"
    );
}

#[test]
fn quilt_series() {
    let series = "# leading comment\n01-fix.patch\n\n  02-other.patch  \r\n#03-disabled.patch\n04-last.patch";
    assert_eq!(
        quilt_series_patches(series),
        vec!["01-fix.patch".to_string(), "02-other.patch".to_string(), "04-last.patch".to_string()]
    );
    assert!(quilt_series_patches("").is_empty());
}

#[test]
fn ignored_dirs() {
    assert!(is_ignored_source_dir("tmp"));
    assert!(is_ignored_source_dir("debian"));
    assert!(is_ignored_source_dir(".ctb_debian"));
    assert!(!is_ignored_source_dir("libX11-1.8.7"));
    assert!(!is_ignored_source_dir("tmpx"));
}

#[test]
fn autoreconf() {
    assert!(needs_autoreconf("xtrans", false));
    assert!(!needs_autoreconf("libX11", false));
    assert!(needs_autoreconf("libX11", true));
}

#[test]
fn configure_option_list() {
    assert_eq!(
        configure_options("/opt/x", None),
        vec!["--prefix=/opt/x", "--disable-maintainer-mode", "--disable-shared", "--enable-static", "--with-pic"]
    );
    assert_eq!(
        configure_options("/p", Some("aarch64-linux-gnu")).last().map(String::as_str),
        Some("--host=aarch64-linux-gnu")
    );
}

#[test]
fn meson_setup_option_list() {
    assert_eq!(
        meson_setup_options("/opt/x", "/b/cross.ini"),
        vec![
            "--prefix=/opt/x",
            "--libdir=lib",
            "--default-library=static",
            "--cross-file=/b/cross.ini",
            "-Ddocs=false",
            "-Dtests=false",
        ]
    );
}

#[test]
fn source_dir_choice() {
    let d = |name: &str, built: bool| (name.to_string(), built);
    // the first directory with a build file wins, skipped ones aside
    assert_eq!(choose_source_dir(&[d("debian", true), d("a", false), d("b", true), d("c", true)]), Some(2));
    // without a build file, the only candidate
    assert_eq!(choose_source_dir(&[d("tmp", false), d(".git", true), d("libx11-1.8", false)]), Some(2));
    // two candidates without build files: cannot tell
    assert_eq!(choose_source_dir(&[d("a", false), d("b", false)]), None);
    assert_eq!(choose_source_dir(&[]), None);
    assert_eq!(choose_source_dir(&[d("debian", true)]), None);
}
