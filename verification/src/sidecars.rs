//! Where the bundled `agg` and `ffmpeg` helper binaries live: the target
//! triple of the platform, the names the files carry, and the path next to
//! the running executable where they are looked up.
use vstd::prelude::*;

use crate::paths::{join_paths, parent_of, path_join, path_parent};
use crate::session::or_text;
use crate::text::{same_text, trim, trim_range};

verus! {

/// A bundled helper binary.
#[derive(Clone, Copy, Debug, PartialEq, Eq)]
pub enum Sidecar {
    Agg,
    Ffmpeg,
}

/// The name a sidecar is declared and spawned under.
pub open spec fn sidecar_name(s: Sidecar) -> Seq<char> {
    match s {
        Sidecar::Agg => "agg"@,
        Sidecar::Ffmpeg => "ffmpeg"@,
    }
}

impl Sidecar {
    /// The sidecar's bare name.
    pub fn name(self) -> (r: &'static str)
        ensures
            r@ == sidecar_name(self),
    {
        match self {
            Sidecar::Agg => "agg",
            Sidecar::Ffmpeg => "ffmpeg",
        }
    }
}

/// Why a sidecar cannot be used.
#[derive(Clone, Debug, PartialEq, Eq)]
pub enum SidecarError {
    /// No target triple is known for this operating system and architecture.
    UnsupportedPlatform { os: &'static str, arch: &'static str },
    /// The sidecar is not at the path it is looked up at.
    MissingSidecar { name: &'static str, expected_path: String },
    /// The running executable's directory cannot be found.
    ExeDirUnavailable(String),
}

/// The message a sidecar error reads as.
pub open spec fn sidecar_message(e: SidecarError) -> Seq<char> {
    match e {
        SidecarError::UnsupportedPlatform { os, arch } => "unsupported platform: "@ + os@ + "/"@
            + arch@,
        SidecarError::MissingSidecar { name, expected_path } => "sidecar '"@ + name@
            + "' not found next to the app binary at '"@ + expected_path@
            + "'; run sidecars/fetch-sidecars.sh for this platform and rebuild/repackage (see sidecars/README.md and BUILD.md)"@,
        SidecarError::ExeDirUnavailable(detail) => "cannot locate the running app binary: "@
            + detail@,
    }
}

impl SidecarError {
    /// The human-readable message of this error.
    pub fn to_string(&self) -> (s: String)
        ensures
            s@ == sidecar_message(*self),
    {
        match self {
            SidecarError::UnsupportedPlatform { os, arch } => {
                let mut s = String::from_str("unsupported platform: ");
                s.append(os);
                s.append("/");
                s.append(arch);
                s
            },
            SidecarError::MissingSidecar { name, expected_path } => {
                let mut s = String::from_str("sidecar '");
                s.append(name);
                s.append("' not found next to the app binary at '");
                s.append(expected_path.as_str());
                s.append(
                    "'; run sidecars/fetch-sidecars.sh for this platform and rebuild/repackage (see sidecars/README.md and BUILD.md)",
                );
                s
            },
            SidecarError::ExeDirUnavailable(detail) => {
                let mut s = String::from_str("cannot locate the running app binary: ");
                s.append(detail.as_str());
                s
            },
        }
    }
}

/// The target triple of a supported operating system and architecture.
pub open spec fn triple_of(os: Seq<char>, arch: Seq<char>) -> Option<Seq<char>> {
    if os == "linux"@ && arch == "x86_64"@ {
        Some("x86_64-unknown-linux-gnu"@)
    } else if os == "linux"@ && arch == "aarch64"@ {
        Some("aarch64-unknown-linux-gnu"@)
    } else if os == "macos"@ && arch == "x86_64"@ {
        Some("x86_64-apple-darwin"@)
    } else if os == "macos"@ && arch == "aarch64"@ {
        Some("aarch64-apple-darwin"@)
    } else if os == "windows"@ && arch == "x86_64"@ {
        Some("x86_64-pc-windows-msvc"@)
    } else if os == "windows"@ && arch == "aarch64"@ {
        Some("aarch64-pc-windows-msvc"@)
    } else {
        None
    }
}

/// The target triple for `os`/`arch` (the values of
/// `std::env::consts::OS` and `ARCH`).
pub fn target_triple(os: &'static str, arch: &'static str) -> (r: Result<&'static str, SidecarError>)
    ensures
        match triple_of(os@, arch@) {
            Some(t) => r matches Ok(s) && s@ == t,
            None => r == Err::<&'static str, SidecarError>(
                SidecarError::UnsupportedPlatform { os, arch },
            ),
        },
{
    let linux = same_text(os, "linux");
    let macos = same_text(os, "macos");
    let windows = same_text(os, "windows");
    let x86 = same_text(arch, "x86_64");
    let arm = same_text(arch, "aarch64");
    if linux && x86 {
        Ok("x86_64-unknown-linux-gnu")
    } else if linux && arm {
        Ok("aarch64-unknown-linux-gnu")
    } else if macos && x86 {
        Ok("x86_64-apple-darwin")
    } else if macos && arm {
        Ok("aarch64-apple-darwin")
    } else if windows && x86 {
        Ok("x86_64-pc-windows-msvc")
    } else if windows && arm {
        Ok("aarch64-pc-windows-msvc")
    } else {
        Err(SidecarError::UnsupportedPlatform { os, arch })
    }
}

/// The per-triple source file name of a sidecar: `<name>-<triple>`.
pub fn sidecar_file_name(name: &str, triple: &str) -> (r: String)
    ensures
        r@ == name@ + "-"@ + triple@,
{
    let mut s = String::from_str(name);
    s.append("-");
    s.append(triple);
    s
}

/// The file name a sidecar has at run time: its bare name, with `.exe` on
/// Windows.
pub open spec fn runtime_name(sidecar: Sidecar, os: Seq<char>) -> Seq<char> {
    if os == "windows"@ {
        sidecar_name(sidecar) + ".exe"@
    } else {
        sidecar_name(sidecar)
    }
}

/// On Linux and macOS a sidecar's run-time file is its bare name; only on
/// Windows does it carry `.exe`.
pub proof fn lemma_exe_suffix_only_on_windows(sidecar: Sidecar)
    ensures
        runtime_name(sidecar, "linux"@) == sidecar_name(sidecar),
        runtime_name(sidecar, "macos"@) == sidecar_name(sidecar),
        runtime_name(sidecar, "windows"@) == sidecar_name(sidecar) + ".exe"@,
        runtime_name(Sidecar::Agg, "macos"@) == "agg"@,
        runtime_name(Sidecar::Ffmpeg, "linux"@) == "ffmpeg"@,
{
    reveal_strlit("linux");
    reveal_strlit("macos");
    reveal_strlit("windows");
    assert("linux"@.len() != "windows"@.len());
    assert("macos"@.len() != "windows"@.len());
}

/// The run-time file name of a sidecar on `os`.
pub fn runtime_file_name(sidecar: Sidecar, os: &str) -> (r: String)
    ensures
        r@ == runtime_name(sidecar, os@),
{
    let mut s = String::from_str(sidecar.name());
    if same_text(os, "windows") {
        s.append(".exe");
    }
    s
}

/// Where a sidecar is looked up: directly in the executable's directory,
/// under its run-time name, once the platform is known to be supported.
pub fn resolve(exe_dir: &str, sidecar: Sidecar, os: &'static str, arch: &'static str) -> (r:
    Result<String, SidecarError>)
    ensures
        match triple_of(os@, arch@) {
            Some(_) => r matches Ok(p) && p@ == path_join(exe_dir@, runtime_name(sidecar, os@)),
            None => r matches Err(SidecarError::UnsupportedPlatform { os: o, arch: a }) && o == os
                && a == arch,
        },
{
    match target_triple(os, arch) {
        Ok(_) => {},
        Err(e) => {
            return Err(e);
        },
    }
    let name = runtime_file_name(sidecar, os);
    Ok(join_paths(exe_dir, name.as_str()))
}

/// [`resolve`], then the presence check: `present` tells whether a file
/// exists at the resolved path.
pub fn resolve_checked(
    exe_dir: &str,
    sidecar: Sidecar,
    os: &'static str,
    arch: &'static str,
    present: bool,
) -> (r: Result<String, SidecarError>)
    ensures
        match triple_of(os@, arch@) {
            Some(_) => {
                let p = path_join(exe_dir@, runtime_name(sidecar, os@));
                if present {
                    r matches Ok(s) && s@ == p
                } else {
                    r matches Err(SidecarError::MissingSidecar { name, expected_path }) && name@
                        == sidecar_name(sidecar) && expected_path@ == p
                }
            },
            None => r matches Err(SidecarError::UnsupportedPlatform { os: o, arch: a }) && o == os
                && a == arch,
        },
{
    let path = resolve(exe_dir, sidecar, os, arch)?;
    if present {
        Ok(path)
    } else {
        Err(SidecarError::MissingSidecar { name: sidecar.name(), expected_path: path })
    }
}

/// Whether a path's last component is `deps` (`Path::ends_with`).
pub uninterp spec fn path_ends_with_deps(p: Seq<char>) -> bool;

/// `Path::ends_with("deps")` of a path written as text.
#[verifier::external_body]
fn ends_with_deps(p: &str) -> (r: bool)
    ensures
        r == path_ends_with_deps(p@),
{
    std::path::Path::new(p).ends_with("deps")
}

/// The directory sidecars are looked up in, given the directory of the
/// running executable: one level up when that directory is a `deps`
/// directory (where test binaries run), else the directory itself.
pub fn sidecar_base_dir(exe_parent: &str) -> (r: String)
    ensures
        r@ == if path_ends_with_deps(exe_parent@) {
            or_text(path_parent(exe_parent@), exe_parent@)
        } else {
            exe_parent@
        },
{
    if ends_with_deps(exe_parent) {
        match parent_of(exe_parent) {
            Some(p) => p,
            None => String::from_str(exe_parent),
        }
    } else {
        String::from_str(exe_parent)
    }
}

/// The argument that makes a sidecar print its version.
pub open spec fn version_flag(s: Sidecar) -> Seq<char> {
    match s {
        Sidecar::Agg => "--version"@,
        Sidecar::Ffmpeg => "-version"@,
    }
}

/// The version-query argument of a sidecar.
pub fn version_arg(sidecar: Sidecar) -> (r: &'static str)
    ensures
        r@ == version_flag(sidecar),
{
    match sidecar {
        Sidecar::Agg => "--version",
        Sidecar::Ffmpeg => "-version",
    }
}

/// The version a sidecar reported: the first line of its output, trimmed;
/// an empty one is an error naming the sidecar.
pub open spec fn version_report(name: Seq<char>, output: Seq<char>) -> Result<Seq<char>, Seq<char>> {
    let lines = crate::text::lines_of(output);
    let first = if lines.len() > 0 {
        trim(lines[0])
    } else {
        Seq::empty()
    };
    if first.len() == 0 {
        Err(name + " produced no output"@)
    } else {
        Ok(first)
    }
}

/// Reads the version line out of a sidecar's output.
pub fn version_line(name: &str, output: &str) -> (r: Result<String, String>)
    ensures
        match version_report(name@, output@) {
            Ok(v) => r matches Ok(s) && s@ == v,
            Err(m) => r matches Err(s) && s@ == m,
        },
{
    let v = crate::text::chars_of(output);
    let spans = crate::text::line_spans(&v);
    let (a, b) = if spans.len() > 0 {
        trim_range(&v, spans[0].start, spans[0].end)
    } else {
        (0, 0)
    };
    if a == b {
        let mut s = String::from_str(name);
        s.append(" produced no output");
        return Err(s);
    }
    Ok(crate::text::string_of(&v, a, b))
}

} // verus!
