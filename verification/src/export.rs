//! Video export: the output formats, the sidecar command lines, the parsing
//! of their progress output, and the decisions of the export pipeline
//! (compose to a `.cast`, render a GIF with `agg`, transcode with `ffmpeg`).
use vstd::prelude::*;

use crate::sidecars::Sidecar;
use crate::text::{
    chars_of, find_in, first_index, has_prefix, is_whitespace, is_ws, parse_i64, parse_unsigned,
    same_text, signed_text, starts_with_at, trim, trim_range, trim_start, unsigned_text,
};

verus! {

/// An export target format.
#[derive(Clone, Copy, Debug, PartialEq, Eq)]
pub enum ExportFormat {
    Mp4,
    Webm,
    Gif,
}

/// The format a name denotes.
pub open spec fn format_named(s: Seq<char>) -> Option<ExportFormat> {
    if s == "mp4"@ {
        Some(ExportFormat::Mp4)
    } else if s == "webm"@ {
        Some(ExportFormat::Webm)
    } else if s == "gif"@ {
        Some(ExportFormat::Gif)
    } else {
        None
    }
}

/// The file extension of a format.
pub open spec fn extension_of(f: ExportFormat) -> Seq<char> {
    match f {
        ExportFormat::Mp4 => "mp4"@,
        ExportFormat::Webm => "webm"@,
        ExportFormat::Gif => "gif"@,
    }
}

impl ExportFormat {
    /// Parses a format name (`mp4`, `webm` or `gif`).
    pub fn parse(s: &str) -> (r: Result<Self, String>)
        ensures
            match format_named(s@) {
                Some(f) => r == Ok::<ExportFormat, String>(f),
                None => r matches Err(m) && m@ == "unknown export format '"@ + s@
                    + "' (expected mp4, webm, or gif)"@,
            },
    {
        if same_text(s, "mp4") {
            Ok(ExportFormat::Mp4)
        } else if same_text(s, "webm") {
            Ok(ExportFormat::Webm)
        } else if same_text(s, "gif") {
            Ok(ExportFormat::Gif)
        } else {
            let mut m = String::from_str("unknown export format '");
            m.append(s);
            m.append("' (expected mp4, webm, or gif)");
            Err(m)
        }
    }

    /// The file extension (without the dot).
    pub fn extension(self) -> (r: &'static str)
        ensures
            r@ == extension_of(self),
    {
        match self {
            ExportFormat::Mp4 => "mp4",
            ExportFormat::Webm => "webm",
            ExportFormat::Gif => "gif",
        }
    }

    /// Whether the format is transcoded from `agg`'s GIF by `ffmpeg`.
    pub fn needs_ffmpeg(self) -> (r: bool)
        ensures
            r == !(self is Gif),
    {
        !matches!(self, ExportFormat::Gif)
    }
}

/// The output name offered for a recording: its name with a trailing
/// `.cast` replaced by the format's extension (or the extension appended).
pub open spec fn output_name(source: Seq<char>, f: ExportFormat) -> Seq<char> {
    let stem = if crate::text::has_suffix(source, ".cast"@) {
        source.subrange(0, source.len() - 5)
    } else {
        source
    };
    stem + "."@ + extension_of(f)
}

/// The default file name of an export of `source_name` in `format`.
pub fn default_output_name(source_name: &str, format: ExportFormat) -> (r: String)
    ensures
        r@ == output_name(source_name@, format),
{
    proof {
        reveal_strlit(".cast");
    }
    let v = chars_of(source_name);
    let suffix = chars_of(".cast");
    let end = if crate::text::ends_with(&v, &suffix) {
        v.len() - 5
    } else {
        v.len()
    };
    let mut s = crate::text::string_of(&v, 0, end);
    assert(v@.subrange(0, v@.len() as int) =~= v@);
    s.append(".");
    s.append(format.extension());
    s
}

/// The views of a list of strings.
pub open spec fn texts(v: Seq<String>) -> Seq<Seq<char>> {
    v.map_values(|s: String| s@)
}

fn push_str(v: &mut Vec<String>, s: &str)
    ensures
        texts(final(v)@) == texts(old(v)@).push(s@),
{
    let ghost before = v@;
    v.push(String::from_str(s));
    assert(texts(v@) =~= texts(before).push(s@));
}

/// `agg`'s command line: the composed cast, then the GIF to write.
pub fn agg_args(cast_path: &str, gif_target: &str) -> (r: Vec<String>)
    ensures
        texts(r@) == seq![cast_path@, gif_target@],
{
    let mut v: Vec<String> = Vec::new();
    push_str(&mut v, cast_path);
    push_str(&mut v, gif_target);
    v
}

/// `ffmpeg`'s command line for transcoding the GIF into `format`: scale to
/// even dimensions, `yuv420p` pixels, the format's codec options, progress
/// on standard output, then the output path.
pub open spec fn ffmpeg_arg_list(format: ExportFormat, gif: Seq<char>, out: Seq<char>) -> Seq<
    Seq<char>,
> {
    let base = seq![
        "-y"@,
        "-i"@,
        gif,
        "-vf"@,
        "scale=trunc(iw/2)*2:trunc(ih/2)*2"@,
        "-pix_fmt"@,
        "yuv420p"@,
    ];
    let codec = match format {
        ExportFormat::Mp4 => seq!["-movflags"@, "+faststart"@],
        _ => seq!["-c:v"@, "libvpx-vp9"@, "-b:v"@, "0"@, "-crf"@, "34"@, "-an"@],
    };
    base + codec + seq!["-progress"@, "pipe:1"@, out]
}

/// `ffmpeg`'s command line; GIF exports never run `ffmpeg`.
pub fn ffmpeg_args(format: ExportFormat, gif_path: &str, output_path: &str) -> (r: Vec<String>)
    requires
        !(format is Gif),
    ensures
        texts(r@) == ffmpeg_arg_list(format, gif_path@, output_path@),
{
    let mut v: Vec<String> = Vec::new();
    push_str(&mut v, "-y");
    push_str(&mut v, "-i");
    push_str(&mut v, gif_path);
    push_str(&mut v, "-vf");
    push_str(&mut v, "scale=trunc(iw/2)*2:trunc(ih/2)*2");
    push_str(&mut v, "-pix_fmt");
    push_str(&mut v, "yuv420p");
    match format {
        ExportFormat::Mp4 => {
            push_str(&mut v, "-movflags");
            push_str(&mut v, "+faststart");
        },
        _ => {
            push_str(&mut v, "-c:v");
            push_str(&mut v, "libvpx-vp9");
            push_str(&mut v, "-b:v");
            push_str(&mut v, "0");
            push_str(&mut v, "-crf");
            push_str(&mut v, "34");
            push_str(&mut v, "-an");
        },
    }
    push_str(&mut v, "-progress");
    push_str(&mut v, "pipe:1");
    push_str(&mut v, output_path);
    assert(texts(v@) =~= ffmpeg_arg_list(format, gif_path@, output_path@));
    v
}

/// `std::str::from_utf8`: the bytes as text when they are valid UTF-8.
#[verifier::external_body]
fn utf8_text(bytes: &[u8]) -> (r: Option<String>)
    ensures
        match r {
            Some(s) => vstd::utf8::valid_utf8(bytes@) && s@ == vstd::utf8::decode_utf8(bytes@),
            None => !vstd::utf8::valid_utf8(bytes@),
        },
{
    std::str::from_utf8(bytes).ok().map(|s| s.to_string())
}

/// The value of an `ffmpeg` progress line `out_time_ms=<n>` (whose value is
/// in microseconds despite the key's name): the line as text, trimmed,
/// with the key removed and the rest trimmed and read as an `i64`.
pub open spec fn out_time_value(bytes: Seq<u8>) -> Option<i64> {
    if !vstd::utf8::valid_utf8(bytes) {
        None
    } else {
        let t = trim(vstd::utf8::decode_utf8(bytes));
        if has_prefix(t, "out_time_ms="@) {
            match signed_text(trim(t.subrange(12, t.len() as int))) {
                Some(x) => if i64::MIN <= x <= i64::MAX {
                    Some(x as i64)
                } else {
                    None
                },
                None => None,
            }
        } else {
            None
        }
    }
}

/// Reads the microseconds of an `ffmpeg` `out_time_ms=` progress line.
pub fn parse_out_time_us(line: &[u8]) -> (r: Option<i64>)
    ensures
        r == out_time_value(line@),
{
    proof {
        reveal_strlit("out_time_ms=");
    }
    let text = match utf8_text(line) {
        Some(t) => t,
        None => {
            return None;
        },
    };
    let v = chars_of(text.as_str());
    let n = v.len();
    let (a, b) = trim_range(&v, 0, n);
    assert(v@.subrange(0, n as int) =~= v@);
    let key = chars_of("out_time_ms=");
    if !starts_with_at(&v, a, b, &key) {
        return None;
    }
    let ghost t = v@.subrange(a as int, b as int);
    let (c, d) = trim_range(&v, a + 12, b);
    assert(t.subrange(12, t.len() as int) =~= v@.subrange(a + 12, b as int));
    parse_i64(&v, c, d)
}

/// The length of the run of non-white-space characters that starts `s`.
pub open spec fn token_len(s: Seq<char>) -> nat
    decreases s.len(),
{
    if s.len() == 0 || is_ws(s[0]) {
        0
    } else {
        1 + token_len(s.drop_first())
    }
}

/// The first white-space-separated token of `s`, if any.
pub open spec fn first_token(s: Seq<char>) -> Option<Seq<char>> {
    let u = trim_start(s);
    if u.len() == 0 {
        None
    } else {
        Some(u.take(token_len(u) as int))
    }
}

/// Two read counts as `u64`s, when both read, fit, and the total is not zero.
pub open spec fn counts_of(cur: Option<nat>, tot: Option<nat>) -> Option<(u64, u64)> {
    match (cur, tot) {
        (Some(c), Some(t)) => if c <= u64::MAX && t <= u64::MAX && t != 0 {
            Some((c as u64, t as u64))
        } else {
            None
        },
        _ => None,
    }
}

/// The frame counts of an already trimmed redraw: split at its first `/`,
/// the left side trimmed and the first token of the right side, each read
/// as a `u64`; a zero total reads as nothing.
pub open spec fn counts_in(t: Seq<char>) -> Option<(u64, u64)> {
    match first_index(t, '/') {
        None => None,
        Some(i) => match first_token(t.subrange(i + 1, t.len() as int)) {
            None => None,
            Some(tok) => counts_of(unsigned_text(trim(t.subrange(0, i))), unsigned_text(tok)),
        },
    }
}

/// The `(current, total)` frame counts of an `agg` progress redraw
/// `"<current> / <total> [bar] ..."`, read from the trimmed segment.
pub open spec fn agg_progress(segment: Seq<char>) -> Option<(u64, u64)> {
    counts_in(trim(segment))
}

proof fn lemma_token_len_skip(s: Seq<char>, i: int)
    requires
        0 <= i <= s.len(),
        forall|k: int| 0 <= k < i ==> !is_ws(#[trigger] s[k]),
    ensures
        token_len(s) == i + token_len(s.subrange(i, s.len() as int)),
    decreases i,
{
    if i > 0 {
        let t = s.drop_first();
        assert forall|k: int| 0 <= k < i - 1 implies !is_ws(#[trigger] t[k]) by {
            assert(t[k] == s[k + 1]);
        }
        lemma_token_len_skip(t, i - 1);
        assert(t.subrange(i - 1, t.len() as int) =~= s.subrange(i, s.len() as int));
    } else {
        assert(s.subrange(0, s.len() as int) =~= s);
    }
}

/// The bounds of the first token of `v[lo..hi]`, if it has one.
fn first_token_range(v: &Vec<char>, lo: usize, hi: usize) -> (r: Option<(usize, usize)>)
    requires
        lo <= hi <= v@.len(),
    ensures
        match first_token(v@.subrange(lo as int, hi as int)) {
            Some(tok) => r matches Some((s, e)) && lo <= s <= e <= hi && v@.subrange(
                s as int,
                e as int,
            ) == tok,
            None => r is None,
        },
{
    let ghost rest = v@.subrange(lo as int, hi as int);
    let mut s = lo;
    while s < hi && is_whitespace(v[s])
        invariant
            lo <= s <= hi <= v@.len(),
            forall|k: int| lo <= k < s ==> is_ws(#[trigger] v@[k]),
        decreases hi - s,
    {
        s = s + 1;
    }
    proof {
        assert forall|k: int| 0 <= k < s - lo implies is_ws(#[trigger] rest[k]) by {
            assert(rest[k] == v@[lo + k]);
        }
        crate::text::lemma_trim_start_skip(rest, s - lo);
        assert(rest.subrange(s - lo, rest.len() as int) =~= v@.subrange(s as int, hi as int));
        let u = v@.subrange(s as int, hi as int);
        if s < hi {
            assert(u.len() > 0 && !is_ws(u[0]));
        }
        assert(trim_start(rest) == u);
    }
    if s == hi {
        return None;
    }
    let mut e = s;
    while e < hi && !is_whitespace(v[e])
        invariant
            s <= e <= hi <= v@.len(),
            forall|k: int| s <= k < e ==> !is_ws(#[trigger] v@[k]),
        decreases hi - e,
    {
        e = e + 1;
    }
    proof {
        let u = v@.subrange(s as int, hi as int);
        assert forall|k: int| 0 <= k < e - s implies !is_ws(#[trigger] u[k]) by {
            assert(u[k] == v@[s + k]);
        }
        lemma_token_len_skip(u, e - s);
        let w = u.subrange(e - s, u.len() as int);
        if e < hi {
            assert(w[0] == v@[e as int]);
        }
        assert(token_len(w) == 0);
        assert(u.take(e - s) =~= v@.subrange(s as int, e as int));
    }
    Some((s, e))
}

#[verifier::spinoff_prover]
#[verifier::rlimit(60)]
fn counts_at(v: &Vec<char>, a: usize, b: usize) -> (r: Option<(u64, u64)>)
    requires
        a <= b <= v@.len(),
    ensures
        r == counts_in(v@.subrange(a as int, b as int)),
{
    let ghost t = v@.subrange(a as int, b as int);
    let i = match find_in(v, a, b, '/') {
        Some(i) => i,
        None => {
            return None;
        },
    };
    let (c, d) = trim_range(v, a, i);
    assert(t.subrange(0, i - a) =~= v@.subrange(a as int, i as int));
    let current = parse_unsigned(v, c, d, u64::MAX);
    assert(t.subrange(i - a + 1, t.len() as int) =~= v@.subrange(i + 1, b as int));
    let (s, e) = match first_token_range(v, i + 1, b) {
        Some(r) => r,
        None => {
            return None;
        },
    };
    let total = parse_unsigned(v, s, e, u64::MAX);
    let ghost tok = v@.subrange(s as int, e as int);
    let ghost left = trim(t.subrange(0, i - a));
    assert(first_index(t, '/') == Some(i - a));
    assert(first_token(t.subrange(i - a + 1, t.len() as int)) == Some(tok));
    assert(counts_in(t) == counts_of(unsigned_text(left), unsigned_text(tok)));
    match (current, total) {
        (Some(x), Some(y)) => {
            if y == 0 {
                None
            } else {
                Some((x, y))
            }
        },
        _ => None,
    }
}

/// Reads the frame counts of one `agg` progress redraw.
pub fn parse_agg_progress(segment: &str) -> (r: Option<(u64, u64)>)
    ensures
        r == agg_progress(segment@),
{
    let v = chars_of(segment);
    let n = v.len();
    assert(v@.subrange(0, n as int) =~= v@);
    let (a, b) = trim_range(&v, 0, n);
    counts_at(&v, a, b)
}

/// The stages reported on the progress channel.
#[derive(Clone, Copy, Debug, PartialEq, Eq)]
pub enum ExportStage {
    WritingProject,
    WritingCast,
    Agg,
    Ffmpeg,
    Done,
    Error,
    Cancelled,
}

/// What a finished export produced.
#[derive(Clone, Debug, PartialEq, Eq)]
pub struct ExportResult {
    pub project_path: String,
    pub cast_path: String,
    pub video_path: String,
    pub bytes: usize,
}

/// The content of an export result.
pub struct ResultView {
    pub project_path: Seq<char>,
    pub cast_path: Seq<char>,
    pub video_path: Seq<char>,
    pub bytes: nat,
}

impl View for ExportResult {
    type V = ResultView;

    open spec fn view(&self) -> ResultView {
        ResultView {
            project_path: self.project_path@,
            cast_path: self.cast_path@,
            video_path: self.video_path@,
            bytes: self.bytes as nat,
        }
    }
}

/// A progress notice without a percentage (percentages are reported by the
/// caller while a sidecar runs).
#[derive(Clone, Debug, PartialEq, Eq)]
pub enum Notice {
    Stage(ExportStage),
    Error(String),
    Done(String),
    Cancelled,
}

/// The content of a notice.
pub enum NoticeView {
    Stage(ExportStage),
    Error(Seq<char>),
    Done(Seq<char>),
    Cancelled,
}

impl View for Notice {
    type V = NoticeView;

    open spec fn view(&self) -> NoticeView {
        match self {
            Notice::Stage(s) => NoticeView::Stage(*s),
            Notice::Error(m) => NoticeView::Error(m@),
            Notice::Done(p) => NoticeView::Done(p@),
            Notice::Cancelled => NoticeView::Cancelled,
        }
    }
}

/// How a failed step ends the export: `cancelled` is reported as a
/// cancellation, anything else as an error carrying the message.
pub open spec fn terminal_notice(message: Seq<char>) -> NoticeView {
    if message == "cancelled"@ {
        NoticeView::Cancelled
    } else {
        NoticeView::Error(message)
    }
}

/// The notice that ends an export that failed with `message`.
pub fn terminal_error(message: &str) -> (n: Notice)
    ensures
        n@ == terminal_notice(message@),
{
    if same_text(message, "cancelled") {
        Notice::Cancelled
    } else {
        Notice::Error(String::from_str(message))
    }
}

/// Everything an export needs decided up front: the format, where the video
/// goes, the saved project's path, where the composed cast is written and
/// how long it is, and a temporary GIF path for formats that transcode.
pub struct ExportPlan {
    pub format: ExportFormat,
    pub video_path: String,
    pub project_path: String,
    pub cast_export_path: String,
    pub temp_gif: String,
    pub composed_len: usize,
}

/// Where the export pipeline stands: the task it is waiting on.
#[derive(Clone, Copy, Debug, PartialEq, Eq)]
pub enum ExportPhase {
    WritingCast,
    CancelBeforeAgg,
    RunningAgg,
    CancelBeforeFfmpeg,
    RunningFfmpeg,
    Finished,
}

/// What the caller observed when it performed the awaited task.
pub enum ExportReport {
    CastWritten,
    CastWriteFailed(String),
    CancelRequested(bool),
    SidecarExited(Result<(), String>),
}

/// A task for the caller.
pub enum ExportAction {
    Emit(Notice),
    WriteCast(String),
    CheckCancel,
    Spawn(Sidecar, Vec<String>, bool),
    Remove(String),
    Return(Result<ExportResult, String>),
}

/// The content of a task.
pub enum ActionView {
    Emit(NoticeView),
    WriteCast(Seq<char>),
    CheckCancel,
    Spawn(Sidecar, Seq<Seq<char>>, bool),
    Remove(Seq<char>),
    Return(Result<ResultView, Seq<char>>),
}

impl View for ExportAction {
    type V = ActionView;

    open spec fn view(&self) -> ActionView {
        match self {
            ExportAction::Emit(n) => ActionView::Emit(n@),
            ExportAction::WriteCast(p) => ActionView::WriteCast(p@),
            ExportAction::CheckCancel => ActionView::CheckCancel,
            ExportAction::Spawn(s, args, raw) => ActionView::Spawn(*s, texts(args@), *raw),
            ExportAction::Remove(p) => ActionView::Remove(p@),
            ExportAction::Return(r) => ActionView::Return(
                match r {
                    Ok(x) => Ok(x@),
                    Err(m) => Err(m@),
                },
            ),
        }
    }
}

/// The views of a list of tasks.
pub open spec fn action_views(v: Seq<ExportAction>) -> Seq<ActionView> {
    v.map_values(|a: ExportAction| a@)
}

/// The GIF `agg` writes: the video itself for GIF exports, else the
/// temporary GIF that `ffmpeg` transcodes.
pub open spec fn gif_target(plan: ExportPlan) -> Seq<char> {
    if plan.format is Gif {
        plan.video_path@
    } else {
        plan.temp_gif@
    }
}

/// The result a successful export returns.
pub open spec fn success_view(plan: ExportPlan) -> ResultView {
    ResultView {
        project_path: plan.project_path@,
        cast_path: plan.cast_export_path@,
        video_path: plan.video_path@,
        bytes: plan.composed_len as nat,
    }
}

/// Whether the pipeline can stand at `phase` for `plan`: a GIF export never
/// waits on `ffmpeg`.
pub open spec fn phase_fits(plan: ExportPlan, phase: ExportPhase) -> bool {
    plan.format is Gif ==> !(phase is CancelBeforeFfmpeg || phase is RunningFfmpeg)
}

/// The tasks that start an export: announce the project and cast stages,
/// then write the composed cast.
pub open spec fn start_actions(plan: ExportPlan) -> Seq<ActionView> {
    seq![
        ActionView::Emit(NoticeView::Stage(ExportStage::WritingProject)),
        ActionView::Emit(NoticeView::Stage(ExportStage::WritingCast)),
        ActionView::WriteCast(plan.cast_export_path@),
    ]
}

/// The export pipeline's transition: from the awaited task and what the
/// caller observed, the next phase and the tasks to perform, in order.
/// Failures end the export with the matching notice and an error; a cancel
/// seen before a sidecar starts ends it as cancelled; the temporary GIF is
/// removed once `ffmpeg` is done with it or will never run. A report that
/// does not answer the awaited task changes nothing.
pub open spec fn step_spec(plan: ExportPlan, phase: ExportPhase, report: ExportReport) -> (
    ExportPhase,
    Seq<ActionView>,
) {
    let gif = gif_target(plan);
    match (phase, report) {
        (ExportPhase::WritingCast, ExportReport::CastWritten) => (
            ExportPhase::CancelBeforeAgg,
            seq![ActionView::CheckCancel],
        ),
        (ExportPhase::WritingCast, ExportReport::CastWriteFailed(e)) => {
            let msg = "cannot write "@ + plan.cast_export_path@ + ": "@ + e@;
            (
                ExportPhase::Finished,
                seq![ActionView::Emit(NoticeView::Error(msg)), ActionView::Return(Err(msg))],
            )
        },
        (ExportPhase::CancelBeforeAgg, ExportReport::CancelRequested(true)) => (
            ExportPhase::Finished,
            seq![ActionView::Emit(NoticeView::Cancelled), ActionView::Return(Err("cancelled"@))],
        ),
        (ExportPhase::CancelBeforeAgg, ExportReport::CancelRequested(false)) => (
            ExportPhase::RunningAgg,
            seq![
                ActionView::Emit(NoticeView::Stage(ExportStage::Agg)),
                ActionView::Spawn(Sidecar::Agg, seq![plan.cast_export_path@, gif], true),
            ],
        ),
        (ExportPhase::RunningAgg, ExportReport::SidecarExited(Err(e))) => (
            ExportPhase::Finished,
            seq![
                ActionView::Remove(gif),
                ActionView::Emit(terminal_notice(e@)),
                ActionView::Return(Err(e@)),
            ],
        ),
        (ExportPhase::RunningAgg, ExportReport::SidecarExited(Ok(()))) => if plan.format is Gif {
            (
                ExportPhase::Finished,
                seq![
                    ActionView::Emit(NoticeView::Done(plan.video_path@)),
                    ActionView::Return(Ok(success_view(plan))),
                ],
            )
        } else {
            (ExportPhase::CancelBeforeFfmpeg, seq![ActionView::CheckCancel])
        },
        (ExportPhase::CancelBeforeFfmpeg, ExportReport::CancelRequested(true)) => (
            ExportPhase::Finished,
            seq![
                ActionView::Remove(gif),
                ActionView::Emit(NoticeView::Cancelled),
                ActionView::Return(Err("cancelled"@)),
            ],
        ),
        (ExportPhase::CancelBeforeFfmpeg, ExportReport::CancelRequested(false)) => (
            ExportPhase::RunningFfmpeg,
            seq![
                ActionView::Emit(NoticeView::Stage(ExportStage::Ffmpeg)),
                ActionView::Spawn(
                    Sidecar::Ffmpeg,
                    ffmpeg_arg_list(plan.format, gif, plan.video_path@),
                    false,
                ),
            ],
        ),
        (ExportPhase::RunningFfmpeg, ExportReport::SidecarExited(Err(e))) => (
            ExportPhase::Finished,
            seq![
                ActionView::Remove(gif),
                ActionView::Emit(terminal_notice(e@)),
                ActionView::Return(Err(e@)),
            ],
        ),
        (ExportPhase::RunningFfmpeg, ExportReport::SidecarExited(Ok(()))) => (
            ExportPhase::Finished,
            seq![
                ActionView::Remove(gif),
                ActionView::Emit(NoticeView::Done(plan.video_path@)),
                ActionView::Return(Ok(success_view(plan))),
            ],
        ),
        _ => (phase, Seq::empty()),
    }
}

fn gif_path(plan: &ExportPlan) -> (r: String)
    ensures
        r@ == gif_target(*plan),
{
    if plan.format.needs_ffmpeg() {
        plan.temp_gif.clone()
    } else {
        plan.video_path.clone()
    }
}

fn success(plan: &ExportPlan) -> (r: ExportResult)
    ensures
        r@ == success_view(*plan),
{
    ExportResult {
        project_path: plan.project_path.clone(),
        cast_path: plan.cast_export_path.clone(),
        video_path: plan.video_path.clone(),
        bytes: plan.composed_len,
    }
}

/// Starts an export.
pub fn export_start(plan: &ExportPlan) -> (r: (ExportPhase, Vec<ExportAction>))
    ensures
        r.0 == ExportPhase::WritingCast,
        phase_fits(*plan, r.0),
        action_views(r.1@) == start_actions(*plan),
{
    let mut v: Vec<ExportAction> = Vec::new();
    v.push(ExportAction::Emit(Notice::Stage(ExportStage::WritingProject)));
    v.push(ExportAction::Emit(Notice::Stage(ExportStage::WritingCast)));
    v.push(ExportAction::WriteCast(plan.cast_export_path.clone()));
    assert(action_views(v@) =~= start_actions(*plan));
    (ExportPhase::WritingCast, v)
}

/// Advances the export pipeline by one observed report.
#[verifier::rlimit(40)]
pub fn export_step(plan: &ExportPlan, phase: ExportPhase, report: ExportReport) -> (r: (
    ExportPhase,
    Vec<ExportAction>,
))
    requires
        phase_fits(*plan, phase),
    ensures
        phase_fits(*plan, r.0),
        r.0 == step_spec(*plan, phase, report).0,
        action_views(r.1@) == step_spec(*plan, phase, report).1,
{
    proof {
        reveal_strlit("cancelled");
    }
    let ghost expected = step_spec(*plan, phase, report);
    let mut v: Vec<ExportAction> = Vec::new();
    let next = match (phase, report) {
        (ExportPhase::WritingCast, ExportReport::CastWritten) => {
            v.push(ExportAction::CheckCancel);
            ExportPhase::CancelBeforeAgg
        },
        (ExportPhase::WritingCast, ExportReport::CastWriteFailed(e)) => {
            let mut msg = String::from_str("cannot write ");
            msg.append(plan.cast_export_path.as_str());
            msg.append(": ");
            msg.append(e.as_str());
            v.push(ExportAction::Emit(Notice::Error(msg.clone())));
            v.push(ExportAction::Return(Err(msg)));
            ExportPhase::Finished
        },
        (ExportPhase::CancelBeforeAgg, ExportReport::CancelRequested(true)) => {
            v.push(ExportAction::Emit(Notice::Cancelled));
            v.push(ExportAction::Return(Err(String::from_str("cancelled"))));
            ExportPhase::Finished
        },
        (ExportPhase::CancelBeforeAgg, ExportReport::CancelRequested(false)) => {
            let gif = gif_path(plan);
            v.push(ExportAction::Emit(Notice::Stage(ExportStage::Agg)));
            v.push(
                ExportAction::Spawn(
                    Sidecar::Agg,
                    agg_args(plan.cast_export_path.as_str(), gif.as_str()),
                    true,
                ),
            );
            ExportPhase::RunningAgg
        },
        (ExportPhase::RunningAgg, ExportReport::SidecarExited(Err(e))) => {
            v.push(ExportAction::Remove(gif_path(plan)));
            v.push(ExportAction::Emit(terminal_error(e.as_str())));
            v.push(ExportAction::Return(Err(e)));
            ExportPhase::Finished
        },
        (ExportPhase::RunningAgg, ExportReport::SidecarExited(Ok(()))) => {
            if plan.format.needs_ffmpeg() {
                v.push(ExportAction::CheckCancel);
                ExportPhase::CancelBeforeFfmpeg
            } else {
                v.push(ExportAction::Emit(Notice::Done(plan.video_path.clone())));
                v.push(ExportAction::Return(Ok(success(plan))));
                ExportPhase::Finished
            }
        },
        (ExportPhase::CancelBeforeFfmpeg, ExportReport::CancelRequested(true)) => {
            v.push(ExportAction::Remove(gif_path(plan)));
            v.push(ExportAction::Emit(Notice::Cancelled));
            v.push(ExportAction::Return(Err(String::from_str("cancelled"))));
            ExportPhase::Finished
        },
        (ExportPhase::CancelBeforeFfmpeg, ExportReport::CancelRequested(false)) => {
            let gif = gif_path(plan);
            v.push(ExportAction::Emit(Notice::Stage(ExportStage::Ffmpeg)));
            v.push(
                ExportAction::Spawn(
                    Sidecar::Ffmpeg,
                    ffmpeg_args(plan.format, gif.as_str(), plan.video_path.as_str()),
                    false,
                ),
            );
            ExportPhase::RunningFfmpeg
        },
        (ExportPhase::RunningFfmpeg, ExportReport::SidecarExited(Err(e))) => {
            v.push(ExportAction::Remove(gif_path(plan)));
            v.push(ExportAction::Emit(terminal_error(e.as_str())));
            v.push(ExportAction::Return(Err(e)));
            ExportPhase::Finished
        },
        (ExportPhase::RunningFfmpeg, ExportReport::SidecarExited(Ok(()))) => {
            v.push(ExportAction::Remove(gif_path(plan)));
            v.push(ExportAction::Emit(Notice::Done(plan.video_path.clone())));
            v.push(ExportAction::Return(Ok(success(plan))));
            ExportPhase::Finished
        },
        _ => phase,
    };
    assert(action_views(v@) =~= expected.1);
    (next, v)
}

/// The GIF `agg` writes is the temporary GIF for every format `ffmpeg`
/// transcodes, and the video itself only for a GIF export.
pub proof fn lemma_gif_target_by_format(plan: ExportPlan)
    ensures
        (plan.format is Mp4 || plan.format is Webm) ==> gif_target(plan) == plan.temp_gif@,
        plan.format is Gif ==> gif_target(plan) == plan.video_path@,
{
}

/// For an export `ffmpeg` transcodes, no step removes anything but the
/// temporary GIF, `agg` writes the temporary GIF, and `ffmpeg` reads the
/// temporary GIF and writes the video: when the two paths differ, the video
/// is never removed and `ffmpeg`'s input is not its output.
pub proof fn lemma_transcode_keeps_video(plan: ExportPlan, phase: ExportPhase, report: ExportReport)
    requires
        !(plan.format is Gif),
    ensures
        ({
            let acts = step_spec(plan, phase, report).1;
            &&& forall|k: int|
                0 <= k < acts.len() ==> (#[trigger] acts[k] matches ActionView::Remove(p) ==> p
                    == plan.temp_gif@)
            &&& forall|k: int|
                0 <= k < acts.len() ==> (#[trigger] acts[k] matches ActionView::Spawn(
                    Sidecar::Agg,
                    args,
                    _,
                ) ==> args == seq![plan.cast_export_path@, plan.temp_gif@])
            &&& forall|k: int|
                0 <= k < acts.len() ==> (#[trigger] acts[k] matches ActionView::Spawn(
                    Sidecar::Ffmpeg,
                    args,
                    _,
                ) ==> args[2] == plan.temp_gif@ && args.last() == plan.video_path@)
        }),
{
}

/// Once finished, the pipeline stays finished and asks for nothing more.
pub proof fn lemma_finished_is_final(plan: ExportPlan, report: ExportReport)
    ensures
        step_spec(plan, ExportPhase::Finished, report) == (ExportPhase::Finished, Seq::<
            ActionView,
        >::empty()),
{
}

/// A step that finishes the export ends with its one `Return`, and a
/// successful return is announced by a `Done` notice for the video path
/// just before it; a step that does not finish returns nothing.
pub proof fn lemma_finishing_step_returns(
    plan: ExportPlan,
    phase: ExportPhase,
    report: ExportReport,
)
    requires
        !(phase is Finished),
    ensures
        ({
            let (next, acts) = step_spec(plan, phase, report);
            &&& next is Finished ==> acts.len() >= 2 && acts.last() is Return
            &&& forall|k: int| 0 <= k < acts.len() - 1 ==> !(#[trigger] acts[k] is Return)
            &&& !(next is Finished) ==> forall|k: int|
                0 <= k < acts.len() ==> !(#[trigger] acts[k] is Return)
            &&& (next is Finished && acts.last() matches ActionView::Return(Ok(_))) ==> acts[acts.len()
                - 2] == ActionView::Emit(NoticeView::Done(plan.video_path@))
        }),
{
}

/// Whether a byte ends an `agg` progress redraw (`\r` or `\n`).
pub open spec fn is_terminator(b: u8) -> bool {
    b == 0x0d || b == 0x0a
}

/// The bytes of a list of segments, one after another.
pub open spec fn joined(segs: Seq<Seq<u8>>) -> Seq<u8>
    decreases segs.len(),
{
    if segs.len() == 0 {
        Seq::empty()
    } else {
        joined(segs.drop_last()) + segs.last()
    }
}

/// Whether a segment is one complete redraw: non-empty, ending in its only
/// terminator.
pub open spec fn complete_segment(s: Seq<u8>) -> bool {
    &&& s.len() > 0
    &&& is_terminator(s.last())
    &&& forall|k: int| 0 <= k < s.len() - 1 ==> !is_terminator(#[trigger] s[k])
}

/// Appends a chunk of `agg`'s output to the pending bytes and takes out
/// every complete redraw, in order; what remains pending holds no
/// terminator.
pub fn take_redraws(pending: &mut Vec<u8>, chunk: &[u8]) -> (segs: Vec<Vec<u8>>)
    ensures
        joined(segs@.map_values(|v: Vec<u8>| v@)) + final(pending)@ == old(pending)@ + chunk@,
        forall|k: int|
            0 <= k < segs@.len() ==> complete_segment(#[trigger] segs@[k]@),
        forall|k: int| 0 <= k < final(pending)@.len() ==> !is_terminator(#[trigger] final(pending)@[k]),
{
    let ghost input = old(pending)@ + chunk@;
    let mut all: Vec<u8> = Vec::new();
    let mut i: usize = 0;
    while i < pending.len()
        invariant
            i <= pending@.len(),
            pending@ == old(pending)@,
            all@ == pending@.take(i as int),
        decreases pending@.len() - i,
    {
        all.push(pending[i]);
        assert(pending@.take(i + 1) =~= pending@.take(i as int).push(pending@[i as int]));
        i = i + 1;
    }
    assert(pending@.take(pending@.len() as int) =~= pending@);
    let mut j: usize = 0;
    let base = all.len();
    while j < chunk.len()
        invariant
            j <= chunk@.len(),
            base == old(pending)@.len(),
            all@ == old(pending)@ + chunk@.take(j as int),
        decreases chunk@.len() - j,
    {
        all.push(chunk[j]);
        assert(chunk@.take(j + 1) =~= chunk@.take(j as int).push(chunk@[j as int]));
        j = j + 1;
    }
    assert(chunk@.take(chunk@.len() as int) =~= chunk@);
    assert(all@ == input);
    let mut segs: Vec<Vec<u8>> = Vec::new();
    let mut cur: Vec<u8> = Vec::new();
    let mut k: usize = 0;
    while k < all.len()
        invariant
            all@ == input,
            k <= all@.len(),
            joined(segs@.map_values(|v: Vec<u8>| v@)) + cur@ == all@.take(k as int),
            forall|m: int| 0 <= m < segs@.len() ==> complete_segment(#[trigger] segs@[m]@),
            forall|m: int| 0 <= m < cur@.len() ==> !is_terminator(#[trigger] cur@[m]),
        decreases all@.len() - k,
    {
        let b = all[k];
        let ghost prev_segs = segs@.map_values(|v: Vec<u8>| v@);
        let ghost prev_cur = cur@;
        cur.push(b);
        assert(all@.take(k + 1) =~= all@.take(k as int).push(b));
        assert(joined(prev_segs) + cur@ =~= (joined(prev_segs) + prev_cur).push(b));
        if b == 0x0d || b == 0x0a {
            let done = cur;
            cur = Vec::new();
            proof {
                assert(complete_segment(done@));
            }
            segs.push(done);
            proof {
                let now = segs@.map_values(|v: Vec<u8>| v@);
                assert(now.drop_last() =~= prev_segs);
                assert(joined(now) == joined(prev_segs) + done@);
                assert(joined(now) + cur@ =~= joined(now));
            }
        }
        k = k + 1;
    }
    assert(all@.take(all@.len() as int) =~= all@);
    *pending = cur;
    segs
}

/// How a sidecar run ends: a cancel requested meanwhile wins; then a zero
/// exit status succeeds; otherwise the failure names the sidecar and quotes
/// its trimmed standard error when there is any.
pub open spec fn sidecar_result(name: Seq<char>, stderr: Seq<char>, exit_ok: bool, cancelled: bool) -> Result<
    (),
    Seq<char>,
> {
    if cancelled {
        Err("cancelled"@)
    } else if exit_ok {
        Ok(())
    } else if trim(stderr).len() == 0 {
        Err(name + " exited with a non-zero status"@)
    } else {
        Err(name + " failed: "@ + trim(stderr))
    }
}

/// The outcome of a sidecar run that has terminated.
pub fn sidecar_outcome(name: &str, stderr: &str, exit_ok: bool, cancelled: bool) -> (r: Result<
    (),
    String,
>)
    ensures
        match sidecar_result(name@, stderr@, exit_ok, cancelled) {
            Ok(()) => r is Ok,
            Err(m) => r matches Err(s) && s@ == m,
        },
{
    if cancelled {
        return Err(String::from_str("cancelled"));
    }
    if exit_ok {
        return Ok(());
    }
    let detail = crate::text::trimmed(stderr);
    let mut s = String::from_str(name);
    if detail.as_str().is_empty() {
        s.append(" exited with a non-zero status");
    } else {
        s.append(" failed: ");
        s.append(detail.as_str());
    }
    Err(s)
}

/// The error a sidecar's spawn channel reported, as the run's failure.
pub fn sidecar_channel_error(name: &str, detail: &str) -> (r: String)
    ensures
        r@ == name@ + " error: "@ + detail@,
{
    let mut s = String::from_str(name);
    s.append(" error: ");
    s.append(detail);
    s
}

/// What `String::from_utf8_lossy` makes of a byte string.
pub uninterp spec fn lossy_text(bytes: Seq<u8>) -> Seq<char>;

/// `String::from_utf8_lossy`: the bytes as text, each invalid sequence
/// replaced by U+FFFD; valid UTF-8 is decoded unchanged.
#[verifier::external_body]
fn lossy_string(bytes: &[u8]) -> (r: String)
    ensures
        r@ == lossy_text(bytes@),
        vstd::utf8::valid_utf8(bytes@) ==> r@ == vstd::utf8::decode_utf8(bytes@),
{
    String::from_utf8_lossy(bytes).into_owned()
}

/// One event of a running sidecar's channel.
pub enum SidecarEvent {
    Stdout(Vec<u8>),
    Stderr(Vec<u8>),
    Terminated(Option<i32>),
    Error(String),
    Other,
}

/// What the caller does after an event.
pub enum RunStep {
    /// Hand these standard-output bytes to the progress reader.
    Forward(Vec<u8>),
    /// Keep reading.
    Continue,
    /// The process terminated; stop reading.
    Finished,
    /// The channel failed with this message; stop.
    Failed(String),
}

/// A running sidecar as seen through its channel: the standard error read
/// so far (each chunk followed by a newline) and whether it exited with
/// status 0.
pub struct SidecarRun {
    stderr_tail: String,
    exit_ok: bool,
}

impl SidecarRun {
    /// The collected standard error.
    pub closed spec fn stderr_view(&self) -> Seq<char> {
        self.stderr_tail@
    }

    /// Whether the process exited with status 0.
    pub closed spec fn exit_ok_view(&self) -> bool {
        self.exit_ok
    }

    /// A run with nothing read yet.
    pub fn new() -> (r: Self)
        ensures
            r.stderr_view() == Seq::<char>::empty(),
            !r.exit_ok_view(),
    {
        SidecarRun { stderr_tail: String::new(), exit_ok: false }
    }

    /// Takes one channel event of the sidecar `name`.
    pub fn observe(&mut self, name: &str, event: SidecarEvent) -> (step: RunStep)
        ensures
            match event {
                SidecarEvent::Stdout(b) => step matches RunStep::Forward(f) && f@ == b@
                    && final(self).stderr_view() == old(self).stderr_view()
                    && final(self).exit_ok_view() == old(self).exit_ok_view(),
                SidecarEvent::Stderr(b) => step is Continue && final(self).stderr_view() == old(
                    self,
                ).stderr_view() + lossy_text(b@) + seq!['\n'] && final(self).exit_ok_view()
                    == old(self).exit_ok_view(),
                SidecarEvent::Terminated(code) => step is Finished && final(self).exit_ok_view()
                    == (code == Some(0i32)) && final(self).stderr_view() == old(self).stderr_view(),
                SidecarEvent::Error(e) => step matches RunStep::Failed(m) && m@ == name@
                    + " error: "@ + e@ && final(self).stderr_view() == old(self).stderr_view()
                    && final(self).exit_ok_view() == old(self).exit_ok_view(),
                SidecarEvent::Other => step is Continue && final(self).stderr_view() == old(
                    self,
                ).stderr_view() && final(self).exit_ok_view() == old(self).exit_ok_view(),
            },
    {
        match event {
            SidecarEvent::Stdout(b) => RunStep::Forward(b),
            SidecarEvent::Stderr(b) => {
                let text = lossy_string(b.as_slice());
                self.stderr_tail.append(text.as_str());
                self.stderr_tail.append("\n");
                proof {
                    reveal_strlit("\n");
                }
                RunStep::Continue
            },
            SidecarEvent::Terminated(code) => {
                self.exit_ok = match code {
                    Some(c) => c == 0,
                    None => false,
                };
                RunStep::Finished
            },
            SidecarEvent::Error(e) => RunStep::Failed(sidecar_channel_error(name, e.as_str())),
            SidecarEvent::Other => RunStep::Continue,
        }
    }

    /// How the run ends, once the channel is done (`cancelled`: whether a
    /// cancel was requested meanwhile).
    pub fn outcome(&self, name: &str, cancelled: bool) -> (r: Result<(), String>)
        ensures
            match sidecar_result(name@, self.stderr_view(), self.exit_ok_view(), cancelled) {
                Ok(()) => r is Ok,
                Err(m) => r matches Err(s) && s@ == m,
            },
    {
        sidecar_outcome(name, self.stderr_tail.as_str(), self.exit_ok, cancelled)
    }
}

} // verus!
