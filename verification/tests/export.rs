use asciicut::export::{
    agg_args, default_output_name, export_start, export_step, ffmpeg_args, parse_agg_progress,
    parse_out_time_us, sidecar_channel_error, sidecar_outcome, take_redraws, terminal_error,
    ExportAction, ExportFormat, ExportPhase, ExportPlan, ExportReport, ExportStage, Notice,
};
use asciicut::export::{RunStep, SidecarEvent, SidecarRun};
use asciicut::session::export_cast_path;
use asciicut::sidecars::Sidecar;

#[test]
fn parses_mp4_and_webm_and_gif() {
    assert_eq!(ExportFormat::parse("mp4").unwrap(), ExportFormat::Mp4);
    assert_eq!(ExportFormat::parse("webm").unwrap(), ExportFormat::Webm);
    assert_eq!(ExportFormat::parse("gif").unwrap(), ExportFormat::Gif);
    assert!(ExportFormat::parse("avi").is_err());
}

#[test]
fn unknown_format_message_names_the_input() {
    assert_eq!(
        ExportFormat::parse("avi").unwrap_err(),
        "unknown export format 'avi' (expected mp4, webm, or gif)"
    );
    assert!(ExportFormat::parse("MP4").is_err());
    assert!(ExportFormat::parse("").is_err());
}

#[test]
fn only_mp4_and_webm_need_ffmpeg() {
    assert!(ExportFormat::Mp4.needs_ffmpeg());
    assert!(ExportFormat::Webm.needs_ffmpeg());
    assert!(!ExportFormat::Gif.needs_ffmpeg());
}

#[test]
fn extensions_match_format_names() {
    assert_eq!(ExportFormat::Mp4.extension(), "mp4");
    assert_eq!(ExportFormat::Webm.extension(), "webm");
    assert_eq!(ExportFormat::Gif.extension(), "gif");
}

#[test]
fn export_cast_path_matches_server_derivation() {
    assert_eq!(
        export_cast_path("/recordings/demo.cast"),
        "/recordings/demo.composed.cast"
    );
}

#[test]
fn default_output_name_swaps_extension() {
    assert_eq!(
        default_output_name("demo.cast", ExportFormat::Mp4),
        "demo.mp4"
    );
    assert_eq!(
        default_output_name("demo.cast", ExportFormat::Webm),
        "demo.webm"
    );
    assert_eq!(
        default_output_name("demo.cast", ExportFormat::Gif),
        "demo.gif"
    );
}

#[test]
fn default_output_name_appends_when_no_cast_suffix() {
    assert_eq!(default_output_name("demo", ExportFormat::Mp4), "demo.mp4");
    assert_eq!(default_output_name("a.cast.cast", ExportFormat::Gif), "a.cast.gif");
}

#[test]
fn agg_args_are_cast_then_gif() {
    assert_eq!(
        agg_args("/tmp/x.composed.cast", "/tmp/out.gif"),
        vec!["/tmp/x.composed.cast".to_string(), "/tmp/out.gif".to_string()]
    );
}

#[test]
fn ffmpeg_args_include_even_dimension_scale_and_pix_fmt() {
    let args = ffmpeg_args(ExportFormat::Mp4, "/tmp/in.gif", "/tmp/out.mp4");
    assert!(args.contains(&"scale=trunc(iw/2)*2:trunc(ih/2)*2".to_string()));
    assert!(args.contains(&"yuv420p".to_string()));
    assert!(args.contains(&"+faststart".to_string()));
}

#[test]
fn webm_ffmpeg_args_force_yuv420p_for_libvpx_vp9() {
    let args = ffmpeg_args(ExportFormat::Webm, "/tmp/in.gif", "/tmp/out.webm");
    assert!(args.contains(&"libvpx-vp9".to_string()));
    assert!(args.contains(&"yuv420p".to_string()));
}

#[test]
fn mp4_ffmpeg_args_exact_order() {
    let args = ffmpeg_args(ExportFormat::Mp4, "in.gif", "out.mp4");
    let expected = [
        "-y", "-i", "in.gif", "-vf", "scale=trunc(iw/2)*2:trunc(ih/2)*2", "-pix_fmt", "yuv420p",
        "-movflags", "+faststart", "-progress", "pipe:1", "out.mp4",
    ];
    assert_eq!(args, expected.iter().map(|s| s.to_string()).collect::<Vec<_>>());
}

#[test]
fn parse_out_time_us_reads_the_key_ffmpeg_calls_ms_but_emits_as_us() {
    assert_eq!(parse_out_time_us(b"out_time_ms=59702479"), Some(59_702_479));
    assert_eq!(parse_out_time_us(b"out_time_ms=N/A"), None);
    assert_eq!(parse_out_time_us(b"frame=41"), None);
    assert_eq!(parse_out_time_us(b"progress=end"), None);
}

#[test]
fn parse_out_time_us_trims_and_accepts_signs() {
    assert_eq!(parse_out_time_us(b"  out_time_ms= 12 \r"), Some(12));
    assert_eq!(parse_out_time_us(b"out_time_ms=-5"), Some(-5));
    assert_eq!(parse_out_time_us(b"out_time_ms=+7"), Some(7));
    assert_eq!(parse_out_time_us(b"out_time_ms="), None);
    assert_eq!(parse_out_time_us(b"out_time_ms=99999999999999999999"), None);
    assert_eq!(parse_out_time_us(&[0xff, 0xfe]), None);
}

#[test]
fn parse_agg_progress_reads_current_and_total_frames() {
    assert_eq!(
        parse_agg_progress("  83 / 10430 [>-------] 0.80 % 6.94/s 25m"),
        Some((83, 10430))
    );
    assert_eq!(parse_agg_progress("1 / 10430 [>] 0.01 % 1.28/s 136m"), Some((1, 10430)));
    assert_eq!(
        parse_agg_progress("10430 / 10430 [=====] 100.00 % 7.0/s 0m"),
        Some((10430, 10430))
    );
}

#[test]
fn parse_agg_progress_rejects_non_progress_and_zero_total() {
    assert_eq!(parse_agg_progress(""), None);
    assert_eq!(parse_agg_progress("   "), None);
    assert_eq!(parse_agg_progress("rendering"), None);
    assert_eq!(parse_agg_progress("0 / 0 [] 0 %"), None);
}

#[test]
fn parse_agg_progress_needs_a_total_token() {
    assert_eq!(parse_agg_progress("5 /"), None);
    assert_eq!(parse_agg_progress("x / 5"), None);
    assert_eq!(parse_agg_progress("5/9"), Some((5, 9)));
}

#[test]
fn redraws_split_on_cr_and_lf_keeping_the_partial_tail() {
    let mut pending = b"1 / 4".to_vec();
    let segs = take_redraws(&mut pending, b" [>]\r2 / 4\n3 / ");
    assert_eq!(segs, vec![b"1 / 4 [>]\r".to_vec(), b"2 / 4\n".to_vec()]);
    assert_eq!(pending, b"3 / ".to_vec());
    let segs = take_redraws(&mut pending, b"4\r");
    assert_eq!(segs, vec![b"3 / 4\r".to_vec()]);
    assert!(pending.is_empty());
}

#[test]
fn cancelled_message_is_reported_as_cancellation() {
    assert_eq!(terminal_error("cancelled"), Notice::Cancelled);
    assert_eq!(terminal_error("agg failed: boom"), Notice::Error("agg failed: boom".to_string()));
}

#[test]
fn sidecar_outcome_messages() {
    assert_eq!(sidecar_outcome("agg", "", true, false), Ok(()));
    assert_eq!(sidecar_outcome("agg", "", true, true), Err("cancelled".to_string()));
    assert_eq!(
        sidecar_outcome("agg", "  \n", false, false),
        Err("agg exited with a non-zero status".to_string())
    );
    assert_eq!(
        sidecar_outcome("ffmpeg", "bad input\n", false, false),
        Err("ffmpeg failed: bad input".to_string())
    );
    assert_eq!(sidecar_channel_error("agg", "io"), "agg error: io");
}

fn plan(format: ExportFormat) -> ExportPlan {
    ExportPlan {
        format,
        video_path: "/out/demo.mp4".to_string(),
        project_path: "/rec/demo.asciicut.json".to_string(),
        cast_export_path: "/rec/demo.composed.cast".to_string(),
        temp_gif: "/tmp/t.gif".to_string(),
        composed_len: 42,
    }
}

#[test]
fn export_pipeline_runs_agg_then_ffmpeg_then_finishes() {
    let p = plan(ExportFormat::Mp4);
    let (phase, acts) = export_start(&p);
    assert_eq!(phase, ExportPhase::WritingCast);
    assert_eq!(acts.len(), 3);
    assert!(matches!(&acts[0], ExportAction::Emit(Notice::Stage(ExportStage::WritingProject))));
    assert!(matches!(&acts[2], ExportAction::WriteCast(path) if path == "/rec/demo.composed.cast"));

    let (phase, acts) = export_step(&p, phase, ExportReport::CastWritten);
    assert_eq!(phase, ExportPhase::CancelBeforeAgg);
    assert!(matches!(acts[0], ExportAction::CheckCancel));

    let (phase, acts) = export_step(&p, phase, ExportReport::CancelRequested(false));
    assert_eq!(phase, ExportPhase::RunningAgg);
    match &acts[1] {
        ExportAction::Spawn(Sidecar::Agg, args, raw) => {
            assert!(*raw);
            assert_eq!(args, &vec!["/rec/demo.composed.cast".to_string(), "/tmp/t.gif".to_string()]);
        }
        _ => panic!("expected agg spawn"),
    }

    let (phase, _) = export_step(&p, phase, ExportReport::SidecarExited(Ok(())));
    assert_eq!(phase, ExportPhase::CancelBeforeFfmpeg);
    let (phase, acts) = export_step(&p, phase, ExportReport::CancelRequested(false));
    assert_eq!(phase, ExportPhase::RunningFfmpeg);
    assert!(matches!(&acts[1], ExportAction::Spawn(Sidecar::Ffmpeg, _, false)));

    let (phase, acts) = export_step(&p, phase, ExportReport::SidecarExited(Ok(())));
    assert_eq!(phase, ExportPhase::Finished);
    assert!(matches!(&acts[0], ExportAction::Remove(path) if path == "/tmp/t.gif"));
    assert!(matches!(&acts[1], ExportAction::Emit(Notice::Done(path)) if path == "/out/demo.mp4"));
    match &acts[2] {
        ExportAction::Return(Ok(r)) => {
            assert_eq!(r.bytes, 42);
            assert_eq!(r.cast_path, "/rec/demo.composed.cast");
        }
        _ => panic!("expected a successful return"),
    }
}

#[test]
fn gif_export_renders_straight_to_the_video_path() {
    let p = plan(ExportFormat::Gif);
    let (phase, acts) = export_step(&p, ExportPhase::CancelBeforeAgg, ExportReport::CancelRequested(false));
    assert_eq!(phase, ExportPhase::RunningAgg);
    match &acts[1] {
        ExportAction::Spawn(Sidecar::Agg, args, _) => assert_eq!(args[1], "/out/demo.mp4"),
        _ => panic!("expected agg spawn"),
    }
    let (phase, acts) = export_step(&p, phase, ExportReport::SidecarExited(Ok(())));
    assert_eq!(phase, ExportPhase::Finished);
    assert!(matches!(&acts[1], ExportAction::Return(Ok(_))));
}

#[test]
fn export_failures_and_cancels_end_the_pipeline() {
    let p = plan(ExportFormat::Webm);
    let (phase, acts) =
        export_step(&p, ExportPhase::WritingCast, ExportReport::CastWriteFailed("disk full".to_string()));
    assert_eq!(phase, ExportPhase::Finished);
    assert!(matches!(&acts[1], ExportAction::Return(Err(m)) if m == "cannot write /rec/demo.composed.cast: disk full"));

    let (phase, acts) = export_step(&p, ExportPhase::CancelBeforeAgg, ExportReport::CancelRequested(true));
    assert_eq!(phase, ExportPhase::Finished);
    assert!(matches!(&acts[0], ExportAction::Emit(Notice::Cancelled)));

    let (phase, acts) = export_step(
        &p,
        ExportPhase::RunningAgg,
        ExportReport::SidecarExited(Err("cancelled".to_string())),
    );
    assert_eq!(phase, ExportPhase::Finished);
    assert!(matches!(&acts[1], ExportAction::Emit(Notice::Cancelled)));

    let (phase, acts) = export_step(&p, ExportPhase::Finished, ExportReport::CastWritten);
    assert_eq!(phase, ExportPhase::Finished);
    assert!(acts.is_empty());
}

#[test]
fn sidecar_run_collects_stderr_and_exit_status() {
    let mut run = SidecarRun::new();
    assert!(matches!(run.observe("agg", SidecarEvent::Stdout(b"1 / 2\r".to_vec())), RunStep::Forward(b) if b == b"1 / 2\r".to_vec()));
    assert!(matches!(run.observe("agg", SidecarEvent::Stderr(b"bad \xff font".to_vec())), RunStep::Continue));
    assert!(matches!(run.observe("agg", SidecarEvent::Terminated(Some(1))), RunStep::Finished));
    assert_eq!(run.outcome("agg", false), Err("agg failed: bad \u{fffd} font".to_string()));
    assert_eq!(run.outcome("agg", true), Err("cancelled".to_string()));

    let mut ok = SidecarRun::new();
    assert!(matches!(ok.observe("ffmpeg", SidecarEvent::Terminated(Some(0))), RunStep::Finished));
    assert_eq!(ok.outcome("ffmpeg", false), Ok(()));
    assert!(matches!(
        ok.observe("ffmpeg", SidecarEvent::Error("broken pipe".to_string())),
        RunStep::Failed(m) if m == "ffmpeg error: broken pipe"
    ));
}
