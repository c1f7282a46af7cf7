use asciicut::cli::{
    dispatch, launch_cast_arg, menu_event_name, thumb_count, usage_message, version, CliCommand,
    DEFAULT_PORT, USAGE, USAGE_EXIT_CODE,
};

fn args(v: &[&str]) -> Vec<String> {
    v.iter().map(|s| s.to_string()).collect()
}

#[test]
fn version_is_reported() {
    assert_eq!(version(), "0.1.0");
    assert!(!version().is_empty());
}

#[test]
fn dispatch_routes_compose_and_serve() {
    assert_eq!(dispatch(&args(&["compose", "p.json"])), CliCommand::Compose("p.json".to_string()));
    assert_eq!(dispatch(&args(&["demo.cast"])), CliCommand::Serve("demo.cast".to_string()));
    assert_eq!(dispatch(&args(&[])), CliCommand::Usage("no subcommand given".to_string()));
    assert_eq!(
        dispatch(&args(&["compose"])),
        CliCommand::Usage("compose takes exactly one argument: <project.asciicut.json>".to_string())
    );
    assert_eq!(
        dispatch(&args(&["frobnicate"])),
        CliCommand::Usage("unknown subcommand 'frobnicate'".to_string())
    );
    assert_eq!(
        dispatch(&args(&["a.cast", "b.cast"])),
        CliCommand::Usage("unknown subcommand 'a.cast'".to_string())
    );
}

#[test]
fn usage_lists_both_forms() {
    let msg = usage_message("no subcommand given");
    assert!(msg.starts_with("asciicut: no subcommand given\n\n"));
    assert!(msg.contains("<file.cast>"));
    assert!(msg.contains("compose"));
    assert!(USAGE.contains("2  argument misuse"));
    assert_eq!(USAGE_EXIT_CODE, 2);
    assert_eq!(DEFAULT_PORT, 8777);
}

#[test]
fn launch_argument_picks_first_cast() {
    assert_eq!(launch_cast_arg(&args(&["asciicut-desktop"])), None);
    assert_eq!(launch_cast_arg(&args(&["asciicut-desktop", "--flag"])), None);
    assert_eq!(
        launch_cast_arg(&args(&["asciicut-desktop", "--flag", "/r/a.cast", "/r/b.cast"])),
        Some("/r/a.cast".to_string())
    );
    assert_eq!(launch_cast_arg(&args(&["x.cast"])), None);
}

#[test]
fn menu_ids_forward_as_events() {
    assert_eq!(menu_event_name("file-open"), Some("menu:open"));
    assert_eq!(menu_event_name("file-save"), Some("menu:save"));
    assert_eq!(menu_event_name("file-save-as"), Some("menu:save-as"));
    assert_eq!(menu_event_name("file-export"), Some("menu:export"));
    assert_eq!(menu_event_name("file-quit"), Some("menu:quit"));
    assert_eq!(menu_event_name("other"), None);
}

#[test]
fn thumb_counts_are_clamped() {
    assert_eq!(thumb_count(None), 12);
    assert_eq!(thumb_count(Some(0)), 1);
    assert_eq!(thumb_count(Some(1)), 1);
    assert_eq!(thumb_count(Some(5000)), 240);
    assert_eq!(thumb_count(Some(30)), 30);
}
