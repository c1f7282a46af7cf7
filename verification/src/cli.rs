//! Command-line dispatch, launch arguments, menu routing and request
//! defaults shared by the command-line tool, the server and the desktop
//! shell.
use vstd::prelude::*;

use crate::paths::{join_paths, parent_of, path_join, path_parent};
use crate::session::or_text;
use crate::text::{chars_of, ends_with, has_suffix, same_text};

verus! {

/// The loopback port the preview server listens on.
pub const DEFAULT_PORT: u16 = 8777;

/// The usage banner.
pub const USAGE: &'static str = "asciicut — compose and preview asciinema recordings

USAGE:
    asciicut compose <project.asciicut.json>   compose an edit project to stdout
    asciicut <file.cast>                      serve the local preview UI

The composed .cast document is written to stdout. Exit codes:
    0  success
    1  I/O or parse error (diagnostic on stderr)
    2  argument misuse (this usage on stderr)";

/// The library's version.
pub fn version() -> (r: &'static str)
    ensures
        r@ == "0.1.0"@,
{
    "0.1.0"
}

/// What the command line asks for.
#[derive(Clone, Debug, PartialEq, Eq)]
pub enum CliCommand {
    /// Compose the project at this path to standard output.
    Compose(String),
    /// Serve the preview UI for the recording at this path.
    Serve(String),
    /// Argument misuse, for this reason.
    Usage(String),
}

/// Whether `s` names a recording (ends in `.cast`).
pub open spec fn is_cast_name(s: Seq<char>) -> bool {
    has_suffix(s, ".cast"@)
}

/// Whether a path ends in `.cast`.
pub fn names_cast(s: &str) -> (r: bool)
    ensures
        r == is_cast_name(s@),
{
    let v = chars_of(s);
    let suffix = chars_of(".cast");
    ends_with(&v, &suffix)
}

/// The command the arguments (after the program name) ask for: `compose`
/// with exactly one path, or a single `.cast` path to serve; anything else
/// is a usage error with its reason.
pub open spec fn command_of(args: Seq<Seq<char>>) -> (Seq<char>, Seq<char>) {
    if args.len() == 0 {
        ("usage"@, "no subcommand given"@)
    } else if args[0] == "compose"@ {
        if args.len() == 2 {
            ("compose"@, args[1])
        } else {
            ("usage"@, "compose takes exactly one argument: <project.asciicut.json>"@)
        }
    } else if args.len() == 1 && is_cast_name(args[0]) {
        ("serve"@, args[0])
    } else {
        ("usage"@, "unknown subcommand '"@ + args[0] + "'"@)
    }
}

/// The kind and argument of a command.
pub open spec fn command_view(c: CliCommand) -> (Seq<char>, Seq<char>) {
    match c {
        CliCommand::Compose(p) => ("compose"@, p@),
        CliCommand::Serve(p) => ("serve"@, p@),
        CliCommand::Usage(r) => ("usage"@, r@),
    }
}

/// The views of a list of strings.
pub open spec fn arg_views(args: Seq<String>) -> Seq<Seq<char>> {
    args.map_values(|s: String| s@)
}

/// Dispatches the command-line arguments (without the program name).
pub fn dispatch(args: &Vec<String>) -> (c: CliCommand)
    ensures
        command_view(c) == command_of(arg_views(args@)),
{
    proof {
        reveal_strlit("compose");
        reveal_strlit("serve");
        reveal_strlit("usage");
    }
    if args.len() == 0 {
        return CliCommand::Usage(String::from_str("no subcommand given"));
    }
    let first = args[0].as_str();
    if same_text(first, "compose") {
        if args.len() == 2 {
            CliCommand::Compose(args[1].clone())
        } else {
            CliCommand::Usage(
                String::from_str("compose takes exactly one argument: <project.asciicut.json>"),
            )
        }
    } else if args.len() == 1 && names_cast(first) {
        CliCommand::Serve(args[0].clone())
    } else {
        let mut m = String::from_str("unknown subcommand '");
        m.append(first);
        m.append("'");
        CliCommand::Usage(m)
    }
}

/// The process exit code for argument misuse.
pub const USAGE_EXIT_CODE: u8 = 2;

/// The diagnostic for argument misuse: the reason, then the usage banner.
pub fn usage_message(reason: &str) -> (r: String)
    ensures
        r@ == "asciicut: "@ + reason@ + "\n\n"@ + USAGE@,
{
    let mut s = String::from_str("asciicut: ");
    s.append(reason);
    s.append("\n\n");
    s.append(USAGE);
    s
}

/// The first argument after the program name that names a recording.
pub open spec fn launch_cast(args: Seq<Seq<char>>) -> Option<Seq<char>>
    decreases args.len(),
{
    if args.len() <= 1 {
        None
    } else if is_cast_name(args[1]) {
        Some(args[1])
    } else {
        launch_cast(args.drop_first())
    }
}

/// The recording a desktop launch names: the first argument after the
/// program name that ends in `.cast`.
pub fn launch_cast_arg(args: &Vec<String>) -> (r: Option<String>)
    ensures
        match launch_cast(arg_views(args@)) {
            Some(p) => r matches Some(s) && s@ == p,
            None => r is None,
        },
{
    let mut i: usize = 1;
    assert(arg_views(args@).subrange(0, arg_views(args@).len() as int) =~= arg_views(args@));
    while i < args.len()
        invariant
            1 <= i,
            i <= args@.len() || args@.len() == 0,
            launch_cast(arg_views(args@)) == launch_cast(arg_views(args@).subrange(
                i - 1,
                arg_views(args@).len() as int,
            )),
        decreases args@.len() - i,
    {
        let ghost rest = arg_views(args@).subrange(i - 1, arg_views(args@).len() as int);
        assert(rest[1] == args@[i as int]@);
        if names_cast(args[i].as_str()) {
            return Some(args[i].clone());
        }
        assert(rest.drop_first() =~= arg_views(args@).subrange(i as int, arg_views(args@).len() as int));
        i = i + 1;
    }
    None
}

/// The menu item ids of the File menu.
pub const MENU_OPEN: &'static str = "file-open";
pub const MENU_SAVE: &'static str = "file-save";
pub const MENU_SAVE_AS: &'static str = "file-save-as";
pub const MENU_EXPORT: &'static str = "file-export";
pub const MENU_QUIT: &'static str = "file-quit";

/// The front-end event a File-menu item is forwarded as.
pub open spec fn menu_event(id: Seq<char>) -> Option<Seq<char>> {
    if id == MENU_OPEN@ {
        Some("menu:open"@)
    } else if id == MENU_SAVE@ {
        Some("menu:save"@)
    } else if id == MENU_SAVE_AS@ {
        Some("menu:save-as"@)
    } else if id == MENU_EXPORT@ {
        Some("menu:export"@)
    } else if id == MENU_QUIT@ {
        Some("menu:quit"@)
    } else {
        None
    }
}

/// The event name of a menu item id; other ids are not forwarded.
pub fn menu_event_name(id: &str) -> (r: Option<&'static str>)
    ensures
        match menu_event(id@) {
            Some(e) => r matches Some(s) && s@ == e,
            None => r is None,
        },
{
    if same_text(id, MENU_OPEN) {
        Some("menu:open")
    } else if same_text(id, MENU_SAVE) {
        Some("menu:save")
    } else if same_text(id, MENU_SAVE_AS) {
        Some("menu:save-as")
    } else if same_text(id, MENU_EXPORT) {
        Some("menu:export")
    } else if same_text(id, MENU_QUIT) {
        Some("menu:quit")
    } else {
        None
    }
}

/// Thumbnails sampled when a request names no count.
pub const DEFAULT_THUMBS: usize = 12;

/// The most thumbnails one request may ask for.
pub const MAX_THUMBS: usize = 240;

/// The number of thumbnails to sample: the requested count (default 12)
/// clamped to `1..=240`.
pub fn thumb_count(count: Option<usize>) -> (n: usize)
    ensures
        n == match count {
            Some(c) => if c < 1 {
                1
            } else if c > 240 {
                240
            } else {
                c
            },
            None => 12,
        },
{
    let c = match count {
        Some(c) => c,
        None => DEFAULT_THUMBS,
    };
    if c < 1 {
        1
    } else if c > MAX_THUMBS {
        MAX_THUMBS
    } else {
        c
    }
}

/// The query of a thumbnail request.
pub struct ThumbsQuery {
    pub count: Option<usize>,
}

/// The reply to an export request of the preview server.
#[derive(Clone, Debug, PartialEq, Eq)]
pub struct ExportResponse {
    pub project_path: String,
    pub cast_path: String,
    pub bytes: usize,
}

/// The reply to a save request.
#[derive(Clone, Debug, PartialEq, Eq)]
pub struct SaveResponse {
    pub path: String,
    pub bytes: usize,
}

/// Where a project's source recording is: its `source` path resolved
/// against the project file's directory (else `.`).
pub fn project_source_path(project_path: &str, source: &str) -> (r: String)
    ensures
        r@ == path_join(or_text(path_parent(project_path@), "."@), source@),
{
    let dir = match parent_of(project_path) {
        Some(d) => d,
        None => String::from_str("."),
    };
    join_paths(dir.as_str(), source)
}

} // verus!
