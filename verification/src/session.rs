//! The editing session: which recording is loaded, where its project is
//! saved, and the sibling-file naming shared by every surface.
use vstd::prelude::*;

use crate::cast::{error_message, ParseError};
use crate::paths::{
    file_name_of, file_stem_of, join_paths, opt_view, parent_of, path_file_name, path_file_stem,
    path_join, path_parent,
};

verus! {

/// The suffix of a recording's edit project file.
pub const PROJECT_SUFFIX: &'static str = ".asciicut.json";

/// The suffix of a recording's composed output.
pub const COMPOSED_CAST_SUFFIX: &'static str = ".composed.cast";

/// `a`, or else `b`.
pub open spec fn or_text(a: Option<Seq<char>>, b: Seq<char>) -> Seq<char> {
    match a {
        Some(x) => x,
        None => b,
    }
}

/// The file beside `cast_path` named by its stem and `suffix`: the parent
/// directory (else `.`) joined with the stem (else `project`) plus suffix.
pub open spec fn sibling(cast_path: Seq<char>, suffix: Seq<char>) -> Seq<char> {
    path_join(
        or_text(path_parent(cast_path), "."@),
        or_text(path_file_stem(cast_path), "project"@) + suffix,
    )
}

/// The path beside `cast_path` that shares its stem and ends in `suffix`:
/// only the final extension is replaced.
pub fn sibling_path(cast_path: &str, suffix: &str) -> (r: String)
    ensures
        r@ == sibling(cast_path@, suffix@),
{
    let dir = match parent_of(cast_path) {
        Some(d) => d,
        None => String::from_str("."),
    };
    let mut name = match file_stem_of(cast_path) {
        Some(s) => s,
        None => String::from_str("project"),
    };
    name.append(suffix);
    join_paths(dir.as_str(), name.as_str())
}

/// Where a recording's composed output is written: its `.composed.cast`
/// sibling.
pub fn export_cast_path(cast_path: &str) -> (r: String)
    ensures
        r@ == sibling(cast_path@, COMPOSED_CAST_SUFFIX@),
{
    sibling_path(cast_path, COMPOSED_CAST_SUFFIX)
}

/// The file name of an optional path, or `fallback`.
pub fn file_name_or(path: &Option<String>, fallback: &str) -> (r: String)
    ensures
        r@ == match path {
            Some(p) => or_text(path_file_name(p@), fallback@),
            None => fallback@,
        },
{
    match path {
        Some(p) => match file_name_of(p.as_str()) {
            Some(n) => n,
            None => String::from_str(fallback),
        },
        None => String::from_str(fallback),
    }
}

/// The parent directory of an optional path, or the empty path.
pub fn parent_or_empty(path: &Option<String>) -> (r: String)
    ensures
        r@ == match path {
            Some(p) => or_text(path_parent(p@), Seq::empty()),
            None => Seq::<char>::empty(),
        },
{
    match path {
        Some(p) => match parent_of(p.as_str()) {
            Some(d) => d,
            None => String::new(),
        },
        None => String::new(),
    }
}

/// What can go wrong in a session operation. I/O failures carry the path
/// and the system's message.
pub enum BridgeError {
    NoCastLoaded,
    ReadCast { path: String, message: String },
    ParseCast(ParseError),
    InvalidProject(String),
    InvalidPersistedProject(String),
    Io { path: String, message: String },
}

/// The message a session error reads as.
pub open spec fn bridge_message(e: BridgeError) -> Seq<char> {
    match e {
        BridgeError::NoCastLoaded => "no cast loaded"@,
        BridgeError::ReadCast { path, message } => "cannot read cast '"@ + path@ + "': "@
            + message@,
        BridgeError::ParseCast(p) => "invalid source cast: "@ + error_message(p),
        BridgeError::InvalidProject(m) => "invalid project: "@ + m@,
        BridgeError::InvalidPersistedProject(m) => "persisted project is invalid: "@ + m@,
        BridgeError::Io { path, message } => "cannot access '"@ + path@ + "': "@ + message@,
    }
}

impl BridgeError {
    /// The human-readable message of this error.
    pub fn to_string(&self) -> (s: String)
        ensures
            s@ == bridge_message(*self),
    {
        match self {
            BridgeError::NoCastLoaded => String::from_str("no cast loaded"),
            BridgeError::ReadCast { path, message } => {
                let mut s = String::from_str("cannot read cast '");
                s.append(path.as_str());
                s.append("': ");
                s.append(message.as_str());
                s
            },
            BridgeError::ParseCast(p) => {
                let mut s = String::from_str("invalid source cast: ");
                let m = p.to_string();
                s.append(m.as_str());
                s
            },
            BridgeError::InvalidProject(m) => {
                let mut s = String::from_str("invalid project: ");
                s.append(m.as_str());
                s
            },
            BridgeError::InvalidPersistedProject(m) => {
                let mut s = String::from_str("persisted project is invalid: ");
                s.append(m.as_str());
                s
            },
            BridgeError::Io { path, message } => {
                let mut s = String::from_str("cannot access '");
                s.append(path.as_str());
                s.append("': ");
                s.append(message.as_str());
                s
            },
        }
    }
}

/// The HTTP status and body a session error is answered with: a bad
/// project is the client's fault (400), a corrupt saved project cannot be
/// processed (422), everything else is the server's (500).
pub open spec fn api_error_of(e: BridgeError) -> (u16, Seq<char>) {
    match e {
        BridgeError::InvalidProject(m) => (400, "invalid project: "@ + m@),
        BridgeError::InvalidPersistedProject(m) => (422, "persisted project is invalid: "@ + m@),
        BridgeError::Io { path, message } => (500, "cannot write "@ + path@ + ": "@ + message@),
        BridgeError::NoCastLoaded => (500, "no cast loaded"@),
        BridgeError::ReadCast { path, message } => (500, "cannot read "@ + path@ + ": "@
            + message@),
        BridgeError::ParseCast(p) => (500, "invalid source cast: "@ + error_message(p)),
    }
}

/// The status code and message of the server's reply to a session error.
pub fn api_error(e: &BridgeError) -> (r: (u16, String))
    ensures
        (r.0, r.1@) == api_error_of(*e),
{
    match e {
        BridgeError::InvalidProject(m) => {
            let mut s = String::from_str("invalid project: ");
            s.append(m.as_str());
            (400, s)
        },
        BridgeError::InvalidPersistedProject(m) => {
            let mut s = String::from_str("persisted project is invalid: ");
            s.append(m.as_str());
            (422, s)
        },
        BridgeError::Io { path, message } => {
            let mut s = String::from_str("cannot write ");
            s.append(path.as_str());
            s.append(": ");
            s.append(message.as_str());
            (500, s)
        },
        BridgeError::NoCastLoaded => (500, String::from_str("no cast loaded")),
        BridgeError::ReadCast { path, message } => {
            let mut s = String::from_str("cannot read ");
            s.append(path.as_str());
            s.append(": ");
            s.append(message.as_str());
            (500, s)
        },
        BridgeError::ParseCast(p) => {
            let mut s = String::from_str("invalid source cast: ");
            let m = p.to_string();
            s.append(m.as_str());
            (500, s)
        },
    }
}

struct Loaded<C> {
    cast: C,
    cast_path: String,
}

/// The session: the loaded recording (any cast model `C`) with the path it
/// came from, and an explicitly chosen project path.
pub struct Session<C> {
    loaded: Option<Loaded<C>>,
    project_path: Option<String>,
}

/// The content of a session.
pub struct SessionView<C> {
    pub loaded: Option<(C, Seq<char>)>,
    pub project_path: Option<Seq<char>>,
}

impl<C> View for Session<C> {
    type V = SessionView<C>;

    closed spec fn view(&self) -> SessionView<C> {
        SessionView {
            loaded: match self.loaded {
                Some(l) => Some((l.cast, l.cast_path@)),
                None => None,
            },
            project_path: opt_view(self.project_path),
        }
    }
}

/// Where a session saves its project: the chosen project path when there
/// is one, else the cast's `.asciicut.json` sibling, else nowhere.
pub open spec fn save_target<C>(s: SessionView<C>) -> Option<Seq<char>> {
    match s.project_path {
        Some(p) => Some(p),
        None => match s.loaded {
            Some((_, cp)) => Some(sibling(cp, PROJECT_SUFFIX@)),
            None => None,
        },
    }
}

impl<C> Session<C> {
    /// An empty session: nothing loaded, no project path.
    pub fn new() -> (s: Self)
        ensures
            s@.loaded is None,
            s@.project_path is None,
    {
        Session { loaded: None, project_path: None }
    }

    /// A session over an already-parsed recording.
    pub fn with_cast(cast: C, cast_path: String) -> (s: Self)
        ensures
            s@.loaded == Some((cast, cast_path@)),
            s@.project_path is None,
    {
        Session { loaded: Some(Loaded { cast, cast_path }), project_path: None }
    }

    /// Replaces the loaded recording; a project path chosen for the previous
    /// recording is forgotten.
    pub fn load(&mut self, cast: C, cast_path: String)
        ensures
            final(self)@.loaded == Some((cast, cast_path@)),
            final(self)@.project_path is None,
    {
        self.loaded = Some(Loaded { cast, cast_path });
        self.project_path = None;
    }

    /// The loaded recording.
    pub fn cast(&self) -> (r: Result<&C, BridgeError>)
        ensures
            match self@.loaded {
                Some((c, _)) => r == Ok::<&C, BridgeError>(&c),
                None => r matches Err(BridgeError::NoCastLoaded),
            },
    {
        match &self.loaded {
            Some(l) => Ok(&l.cast),
            None => Err(BridgeError::NoCastLoaded),
        }
    }

    /// The path the loaded recording came from.
    pub fn cast_path(&self) -> (r: Result<&str, BridgeError>)
        ensures
            match self@.loaded {
                Some((_, p)) => r matches Ok(s) && s@ == p,
                None => r matches Err(BridgeError::NoCastLoaded),
            },
    {
        match &self.loaded {
            Some(l) => Ok(l.cast_path.as_str()),
            None => Err(BridgeError::NoCastLoaded),
        }
    }

    /// Whether a recording is loaded.
    pub fn is_loaded(&self) -> (r: bool)
        ensures
            r == self@.loaded is Some,
    {
        self.loaded.is_some()
    }

    /// Where the project is saved: the chosen project path, else the
    /// recording's `.asciicut.json` sibling.
    pub fn save_path(&self) -> (r: Result<String, BridgeError>)
        ensures
            match save_target(self@) {
                Some(p) => r matches Ok(s) && s@ == p,
                None => r matches Err(BridgeError::NoCastLoaded),
            },
    {
        if let Some(p) = &self.project_path {
            return Ok(p.clone());
        }
        match &self.loaded {
            Some(l) => Ok(sibling_path(l.cast_path.as_str(), PROJECT_SUFFIX)),
            None => Err(BridgeError::NoCastLoaded),
        }
    }

    /// Chooses where the project is saved from now on.
    pub fn set_project_path(&mut self, path: String)
        ensures
            final(self)@.loaded == old(self)@.loaded,
            final(self)@.project_path == Some(path@),
    {
        self.project_path = Some(path);
    }

    /// The recording's file name, or its whole path when it has none.
    pub fn source_name(&self) -> (r: Result<String, BridgeError>)
        ensures
            match self@.loaded {
                Some((_, p)) => r matches Ok(s) && s@ == or_text(path_file_name(p), p),
                None => r matches Err(BridgeError::NoCastLoaded),
            },
    {
        match &self.loaded {
            Some(l) => match file_name_of(l.cast_path.as_str()) {
                Some(n) => Ok(n),
                None => Ok(l.cast_path.clone()),
            },
            None => Err(BridgeError::NoCastLoaded),
        }
    }
}

/// A chosen project path is where the project is saved, whatever is loaded.
pub proof fn lemma_chosen_path_wins<C>(s: SessionView<C>, p: Seq<char>)
    ensures
        save_target(SessionView { loaded: s.loaded, project_path: Some(p) }) == Some(p),
{
}

/// Loading a recording makes its `.asciicut.json` sibling the save target.
pub proof fn lemma_load_targets_sibling<C>(cast: C, cast_path: Seq<char>)
    ensures
        save_target(SessionView { loaded: Some((cast, cast_path)), project_path: None }) == Some(
            sibling(cast_path, PROJECT_SUFFIX@),
        ),
{
}

} // verus!
