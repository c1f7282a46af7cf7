use asciicut::cli::{ExportResponse, SaveResponse};
use asciicut::session::{
    api_error, file_name_or, parent_or_empty, sibling_path, BridgeError, Session,
    COMPOSED_CAST_SUFFIX, PROJECT_SUFFIX,
};

#[test]
fn sibling_path_keeps_the_stem_and_directory() {
    assert_eq!(
        sibling_path("/recordings/demo.cast", PROJECT_SUFFIX),
        "/recordings/demo.asciicut.json"
    );
    assert_eq!(
        sibling_path("/recordings/demo.cast", COMPOSED_CAST_SUFFIX),
        "/recordings/demo.composed.cast"
    );
}

#[test]
fn sibling_path_only_replaces_the_final_extension() {
    assert_eq!(
        sibling_path("my.cast.demo.cast", PROJECT_SUFFIX),
        "my.cast.demo.asciicut.json"
    );
}

#[test]
fn sibling_path_falls_back_for_stemless_and_parentless_paths() {
    assert_eq!(
        sibling_path("demo.cast", PROJECT_SUFFIX),
        "demo.asciicut.json",
        "a bare file name yields a bare sibling, not an absolute path"
    );
    assert_eq!(
        sibling_path("/", PROJECT_SUFFIX),
        "./project.asciicut.json",
        "a path with neither stem nor parent falls back to ./project"
    );
}

#[test]
fn save_path_prefers_an_explicit_project_path() {
    let mut session: Session<()> = Session::new();
    assert!(
        matches!(session.save_path(), Err(BridgeError::NoCastLoaded)),
        "an empty session has no save target"
    );
    session.set_project_path("/elsewhere/chosen.asciicut.json".to_string());
    assert_eq!(
        session.save_path().ok().unwrap(),
        "/elsewhere/chosen.asciicut.json",
        "Save As wins over the cast-derived sibling, with no cast loaded at all"
    );
}

#[test]
fn loading_forgets_the_chosen_project_path() {
    let mut session: Session<u8> = Session::with_cast(7, "/r/a.cast".to_string());
    assert_eq!(session.save_path().ok().unwrap(), "/r/a.asciicut.json");
    session.set_project_path("/x/p.asciicut.json".to_string());
    assert_eq!(session.save_path().ok().unwrap(), "/x/p.asciicut.json");
    session.load(9, "/s/b.cast".to_string());
    assert_eq!(session.save_path().ok().unwrap(), "/s/b.asciicut.json");
    assert_eq!(*session.cast().ok().unwrap(), 9);
    assert_eq!(session.cast_path().ok().unwrap(), "/s/b.cast");
    assert_eq!(session.source_name().ok().unwrap(), "b.cast");
    assert!(session.is_loaded());
}

#[test]
fn empty_session_reports_no_cast_loaded() {
    let session: Session<()> = Session::new();
    assert!(!session.is_loaded());
    assert!(matches!(session.cast(), Err(BridgeError::NoCastLoaded)));
    assert!(matches!(session.source_name(), Err(BridgeError::NoCastLoaded)));
    assert_eq!(BridgeError::NoCastLoaded.to_string(), "no cast loaded");
}

#[test]
fn dialog_defaults_from_optional_paths() {
    let p = Some("/a/b/c.asciicut.json".to_string());
    assert_eq!(file_name_or(&p, "project.asciicut.json"), "c.asciicut.json");
    assert_eq!(file_name_or(&None, "project.asciicut.json"), "project.asciicut.json");
    assert_eq!(parent_or_empty(&p), "/a/b");
    assert_eq!(parent_or_empty(&None), "");
}

#[test]
fn api_errors_map_to_statuses() {
    assert_eq!(
        api_error(&BridgeError::InvalidProject("bad".to_string())),
        (400, "invalid project: bad".to_string())
    );
    assert_eq!(
        api_error(&BridgeError::InvalidPersistedProject("x".to_string())).0,
        422
    );
    assert_eq!(api_error(&BridgeError::NoCastLoaded).0, 500);
    let r = SaveResponse { path: "/p".to_string(), bytes: 3 };
    let e = ExportResponse { project_path: "/p".to_string(), cast_path: "/c".to_string(), bytes: 3 };
    assert_eq!(r.bytes, e.bytes);
}
