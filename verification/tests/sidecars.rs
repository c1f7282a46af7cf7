use std::path::PathBuf;

use asciicut::sidecars::{
    resolve, resolve_checked, sidecar_base_dir, sidecar_file_name, target_triple, version_arg,
    version_line, Sidecar, SidecarError,
};

#[test]
fn sidecar_names_match_external_bin_declaration() {
    assert_eq!(Sidecar::Agg.name(), "agg");
    assert_eq!(Sidecar::Ffmpeg.name(), "ffmpeg");
}

#[test]
fn file_name_includes_target_triple() {
    assert_eq!(
        sidecar_file_name("agg", "x86_64-unknown-linux-gnu"),
        "agg-x86_64-unknown-linux-gnu"
    );
}

#[test]
fn file_name_uses_tauri_external_bin_naming() {
    assert_eq!(
        sidecar_file_name("agg", "x86_64-unknown-linux-gnu"),
        "agg-x86_64-unknown-linux-gnu"
    );
    assert_eq!(
        sidecar_file_name("ffmpeg", "aarch64-apple-darwin"),
        "ffmpeg-aarch64-apple-darwin"
    );
}

#[test]
fn resolve_uses_exe_dir_bare_name_no_triple() {
    let exe_dir = PathBuf::from("/tmp/fake-exe-dir");
    let path = resolve("/tmp/fake-exe-dir", Sidecar::Agg, "linux", "x86_64")
        .expect("supported triple");
    let expected_name = "agg";
    assert_eq!(path, exe_dir.join(expected_name).display().to_string());
}

#[test]
fn agg_and_ffmpeg_resolve_to_distinct_paths() {
    let agg = resolve("/tmp/fake-exe-dir", Sidecar::Agg, "linux", "x86_64").unwrap();
    let ffmpeg = resolve("/tmp/fake-exe-dir", Sidecar::Ffmpeg, "linux", "x86_64").unwrap();
    assert_ne!(agg, ffmpeg);
    let agg_path = PathBuf::from(&agg);
    let ffmpeg_path = PathBuf::from(&ffmpeg);
    assert!(agg_path.file_name().unwrap().to_string_lossy().starts_with("agg"));
    assert!(ffmpeg_path.file_name().unwrap().to_string_lossy().starts_with("ffmpeg"));
}

#[test]
fn windows_sidecars_carry_exe_suffix() {
    let path = resolve("C:/app", Sidecar::Ffmpeg, "windows", "x86_64").unwrap();
    assert!(path.ends_with("ffmpeg.exe"));
}

#[test]
fn supported_triples_table() {
    assert_eq!(target_triple("linux", "x86_64"), Ok("x86_64-unknown-linux-gnu"));
    assert_eq!(target_triple("linux", "aarch64"), Ok("aarch64-unknown-linux-gnu"));
    assert_eq!(target_triple("macos", "x86_64"), Ok("x86_64-apple-darwin"));
    assert_eq!(target_triple("macos", "aarch64"), Ok("aarch64-apple-darwin"));
    assert_eq!(target_triple("windows", "x86_64"), Ok("x86_64-pc-windows-msvc"));
    assert_eq!(target_triple("windows", "aarch64"), Ok("aarch64-pc-windows-msvc"));
    assert_eq!(
        target_triple("freebsd", "x86_64"),
        Err(SidecarError::UnsupportedPlatform { os: "freebsd", arch: "x86_64" })
    );
}

#[test]
fn unsupported_platform_fails_resolution() {
    let err = resolve("/x", Sidecar::Agg, "linux", "riscv64").unwrap_err();
    assert_eq!(err.to_string(), "unsupported platform: linux/riscv64");
}

#[test]
fn resolve_checked_reports_missing_with_name_and_path() {
    let err = resolve_checked("/opt/app", Sidecar::Ffmpeg, "linux", "x86_64", false).unwrap_err();
    assert!(matches!(err, SidecarError::MissingSidecar { name: "ffmpeg", .. }));
    let msg = err.to_string();
    assert!(msg.contains("fetch-sidecars.sh"));
    assert!(msg.contains("README.md"));
    assert!(msg.contains("/opt/app/ffmpeg"));
    let ok = resolve_checked("/opt/app", Sidecar::Ffmpeg, "linux", "x86_64", true).unwrap();
    assert_eq!(ok, "/opt/app/ffmpeg");
}

#[test]
fn deps_directory_maps_one_level_up() {
    assert_eq!(sidecar_base_dir("/repo/target/debug/deps"), "/repo/target/debug");
    assert_eq!(sidecar_base_dir("/usr/bin"), "/usr/bin");
}

#[test]
fn version_output_first_line_is_trimmed() {
    assert_eq!(version_arg(Sidecar::Agg), "--version");
    assert_eq!(version_arg(Sidecar::Ffmpeg), "-version");
    assert_eq!(version_line("agg", "  agg 1.5.0 \nmore\n"), Ok("agg 1.5.0".to_string()));
    assert_eq!(version_line("agg", ""), Err("agg produced no output".to_string()));
    assert_eq!(version_line("ffmpeg", "  \nx"), Err("ffmpeg produced no output".to_string()));
}
