//! The asciicast (v2/v3) document model: event codes, the header rules that
//! normalize both versions, the line layout of a `.cast` document, and the
//! parse errors with their messages.
use std::collections::BTreeMap;
use vstd::prelude::*;

use crate::text::{chars_of, line_spans, lines_of, string_of, trim, trim_range};

verus! {

/// `serde_json::Value`, carried opaquely (a header's theme object).
#[verifier::external_type_specification]
#[verifier::external_body]
pub struct ExJsonValue(serde_json::Value);

/// The typed asciicast event code.
#[derive(Clone, Debug, PartialEq, Eq)]
pub enum EventCode {
    /// `o`: terminal output.
    Output,
    /// `r`: terminal resize (`data` is `"<cols>x<rows>"`).
    Resize,
    /// `m`: a marker (`data` is the label).
    Marker,
    /// Any other code, kept verbatim (e.g. `i` input).
    Other(String),
}

/// The mathematical content of an event code.
pub enum CodeView {
    Output,
    Resize,
    Marker,
    Other(Seq<char>),
}

impl View for EventCode {
    type V = CodeView;

    open spec fn view(&self) -> CodeView {
        match self {
            EventCode::Output => CodeView::Output,
            EventCode::Resize => CodeView::Resize,
            EventCode::Marker => CodeView::Marker,
            EventCode::Other(s) => CodeView::Other(s@),
        }
    }
}

/// The typed code of a raw code string.
pub open spec fn code_of(raw: Seq<char>) -> CodeView {
    if raw == seq!['o'] {
        CodeView::Output
    } else if raw == seq!['r'] {
        CodeView::Resize
    } else if raw == seq!['m'] {
        CodeView::Marker
    } else {
        CodeView::Other(raw)
    }
}

/// The raw code string of a typed code.
pub open spec fn raw_of(code: CodeView) -> Seq<char> {
    match code {
        CodeView::Output => seq!['o'],
        CodeView::Resize => seq!['r'],
        CodeView::Marker => seq!['m'],
        CodeView::Other(s) => s,
    }
}

/// Whether a code is in the form `from_raw` produces: `Other` never holds
/// one of the three known codes.
pub open spec fn canonical_code(code: CodeView) -> bool {
    match code {
        CodeView::Other(s) => s != seq!['o'] && s != seq!['r'] && s != seq!['m'],
        _ => true,
    }
}

/// Reading a code back from its raw string gives every raw string back.
pub proof fn lemma_raw_code_round_trip(raw: Seq<char>)
    ensures
        raw_of(code_of(raw)) == raw,
        canonical_code(code_of(raw)),
{
}

/// Rendering a canonical code and reading it back gives the same code.
pub proof fn lemma_code_raw_round_trip(code: CodeView)
    requires
        canonical_code(code),
    ensures
        code_of(raw_of(code)) == code,
{
    assert(seq!['o'][0] == 'o' && seq!['r'][0] == 'r' && seq!['m'][0] == 'm');
    match code {
        CodeView::Output => {},
        CodeView::Resize => {
            assert(seq!['r'] != seq!['o']);
        },
        CodeView::Marker => {
            assert(seq!['m'] != seq!['o']);
            assert(seq!['m'] != seq!['r']);
        },
        CodeView::Other(s) => {},
    }
}

/// Whether `v` is the one-character string `c`.
fn is_single(v: &Vec<char>, c: char) -> (b: bool)
    ensures
        b == (v@ == seq![c]),
{
    if v.len() == 1 && v[0] == c {
        assert(v@ =~= seq![c]);
        true
    } else {
        false
    }
}

impl EventCode {
    /// Maps a raw asciicast code string to a typed code.
    pub fn from_raw(code: &str) -> (r: EventCode)
        ensures
            r@ == code_of(code@),
    {
        let v = chars_of(code);
        if is_single(&v, 'o') {
            EventCode::Output
        } else if is_single(&v, 'r') {
            EventCode::Resize
        } else if is_single(&v, 'm') {
            EventCode::Marker
        } else {
            EventCode::Other(String::from_str(code))
        }
    }

    /// Renders a typed code back to its raw asciicast code string.
    pub fn as_raw(&self) -> (r: &str)
        ensures
            r@ == raw_of(self@),
    {
        match self {
            EventCode::Output => {
                proof {
                    reveal_strlit("o");
                }
                "o"
            },
            EventCode::Resize => {
                proof {
                    reveal_strlit("r");
                }
                "r"
            },
            EventCode::Marker => {
                proof {
                    reveal_strlit("m");
                }
                "m"
            },
            EventCode::Other(other) => other.as_str(),
        }
    }
}

/// One event of a recording: its typed code and payload. Its time is kept
/// beside it by the caller.
#[derive(Clone, Debug, PartialEq, Eq)]
pub struct Event {
    pub code: EventCode,
    pub data: String,
}

/// Everything that can go wrong while reading a `.cast` document.
#[derive(Clone, Debug, PartialEq, Eq)]
pub enum ParseError {
    /// The input held no non-blank line.
    EmptyInput,
    /// The header line was not a JSON object of the header's shape.
    InvalidHeader(String),
    /// The `version` was absent or not 2 or 3 (holds the value as written).
    UnsupportedVersion(String),
    /// Neither `width`/`height` nor `term.cols`/`term.rows` was present.
    MissingDimensions,
    /// An event line (1-based) was not a `[time, code, data]` array.
    MalformedEvent { line: usize, message: String },
}

/// The decimal digits of `n`, most significant first, without leading zeros.
pub open spec fn decimal(n: nat) -> Seq<char>
    decreases n,
{
    if n < 10 {
        seq![digit_char(n)]
    } else {
        decimal(n / 10).push(digit_char(n % 10))
    }
}

/// The character of a digit value below 10.
pub open spec fn digit_char(d: nat) -> char {
    if d == 0 {
        '0'
    } else if d == 1 {
        '1'
    } else if d == 2 {
        '2'
    } else if d == 3 {
        '3'
    } else if d == 4 {
        '4'
    } else if d == 5 {
        '5'
    } else if d == 6 {
        '6'
    } else if d == 7 {
        '7'
    } else if d == 8 {
        '8'
    } else {
        '9'
    }
}

fn digit(d: u64) -> (c: char)
    requires
        d < 10,
    ensures
        c == digit_char(d as nat),
{
    if d == 0 {
        '0'
    } else if d == 1 {
        '1'
    } else if d == 2 {
        '2'
    } else if d == 3 {
        '3'
    } else if d == 4 {
        '4'
    } else if d == 5 {
        '5'
    } else if d == 6 {
        '6'
    } else if d == 7 {
        '7'
    } else if d == 8 {
        '8'
    } else {
        '9'
    }
}

/// `n` written in decimal.
pub fn decimal_string(n: u64) -> (s: String)
    ensures
        s@ == decimal(n as nat),
    decreases n,
{
    if n < 10 {
        let mut s = String::new();
        crate::text::push_char(&mut s, digit(n));
        assert(s@ =~= seq![digit_char(n as nat)]);
        s
    } else {
        let mut s = decimal_string(n / 10);
        crate::text::push_char(&mut s, digit(n % 10));
        s
    }
}

/// The message a parse error reads as.
pub open spec fn error_message(e: ParseError) -> Seq<char> {
    match e {
        ParseError::EmptyInput => "empty input: no header line"@,
        ParseError::InvalidHeader(m) => "invalid header JSON: "@ + m@,
        ParseError::UnsupportedVersion(v) => "unsupported asciicast version: "@ + v@
            + " (expected 2 or 3)"@,
        ParseError::MissingDimensions =>
            "header is missing terminal dimensions (width/height or term.cols/term.rows)"@,
        ParseError::MalformedEvent { line, message } => "malformed event on line "@ + decimal(
            line as nat,
        ) + ": "@ + message@,
    }
}

impl ParseError {
    /// The human-readable message of this error.
    pub fn to_string(&self) -> (s: String)
        ensures
            s@ == error_message(*self),
    {
        match self {
            ParseError::EmptyInput => String::from_str("empty input: no header line"),
            ParseError::InvalidHeader(m) => {
                let mut s = String::from_str("invalid header JSON: ");
                s.append(m.as_str());
                s
            },
            ParseError::UnsupportedVersion(v) => {
                let mut s = String::from_str("unsupported asciicast version: ");
                s.append(v.as_str());
                s.append(" (expected 2 or 3)");
                s
            },
            ParseError::MissingDimensions => String::from_str(
                "header is missing terminal dimensions (width/height or term.cols/term.rows)",
            ),
            ParseError::MalformedEvent { line, message } => {
                let mut s = String::from_str("malformed event on line ");
                let n = decimal_string(*line as u64);
                s.append(n.as_str());
                s.append(": ");
                s.append(message.as_str());
                s
            },
        }
    }
}

/// The header's `version` field as decoded: its value as an unsigned
/// integer when it is one, and its JSON text.
pub struct VersionField {
    pub number: Option<u64>,
    pub text: String,
}

/// The `term` object of a v3 header.
pub struct TermFields {
    pub cols: Option<u16>,
    pub rows: Option<u16>,
    pub theme: Option<serde_json::Value>,
}

/// The header fields as decoded from either layout, before normalization.
pub struct RawHeader {
    pub version: Option<VersionField>,
    pub width: Option<u16>,
    pub height: Option<u16>,
    pub theme: Option<serde_json::Value>,
    pub timestamp: Option<u64>,
    pub env: Option<BTreeMap<String, String>>,
    pub term: Option<TermFields>,
}

/// The version-normalized header.
#[derive(Clone, Debug, PartialEq)]
pub struct Header {
    pub version: u8,
    pub width: u16,
    pub height: u16,
    pub timestamp: Option<u64>,
    pub theme: Option<serde_json::Value>,
    pub env: Option<BTreeMap<String, String>>,
}

/// A parsed recording without its clock: the header and the events in
/// recorded order.
#[derive(Clone, Debug, PartialEq)]
pub struct Cast {
    pub header: Header,
    pub events: Vec<Event>,
}

/// `a`, or else `b`.
pub open spec fn or_else<T>(a: Option<T>, b: Option<T>) -> Option<T> {
    match a {
        Some(x) => Some(x),
        None => b,
    }
}

/// The `term` field picked out of an optional `term` object.
pub open spec fn term_cols(t: Option<TermFields>) -> Option<u16> {
    match t {
        Some(t) => t.cols,
        None => None,
    }
}

/// The `rows` of an optional `term` object.
pub open spec fn term_rows(t: Option<TermFields>) -> Option<u16> {
    match t {
        Some(t) => t.rows,
        None => None,
    }
}

/// The `theme` of an optional `term` object.
pub open spec fn term_theme(t: Option<TermFields>) -> Option<serde_json::Value> {
    match t {
        Some(t) => t.theme,
        None => None,
    }
}

/// The version number a header declares, if it is one this format knows.
pub open spec fn known_version(v: Option<VersionField>) -> Option<u8> {
    match v {
        Some(f) => match f.number {
            Some(n) => if n == 2 {
                Some(2u8)
            } else if n == 3 {
                Some(3u8)
            } else {
                None
            },
            None => None,
        },
        None => None,
    }
}

/// A declared version 2 or 3 is kept as declared; every other number, a
/// non-number and a missing version are not known.
pub proof fn lemma_known_version_is_declared(v: Option<VersionField>)
    ensures
        known_version(v) is Some <==> (v matches Some(f) && (f.number == Some(2u64) || f.number
            == Some(3u64))),
        known_version(v) matches Some(k) ==> v matches Some(f) && f.number == Some(k as u64),
        (v matches Some(f) && f.number == Some(2u64)) ==> known_version(v) == Some(2u8),
        (v matches Some(f) && f.number == Some(3u64)) ==> known_version(v) == Some(3u8),
{
}

/// How an unsupported version is shown: its JSON text, or `<missing>`.
pub open spec fn shown_version(v: Option<VersionField>) -> Seq<char> {
    match v {
        Some(f) => f.text@,
        None => "<missing>"@,
    }
}

/// Normalizes a decoded header. The version is checked first (it must be 2
/// or 3); the dimensions come from top-level `width`/`height`, else from
/// `term.cols`/`term.rows`; the theme from top-level `theme`, else
/// `term.theme`; `timestamp` and `env` are always top-level.
pub fn resolve_header(raw: RawHeader) -> (r: Result<Header, ParseError>)
    ensures
        match r {
            Ok(h) => {
                &&& known_version(raw.version) == Some(h.version)
                &&& raw.version matches Some(f) && f.number == Some(h.version as u64)
                &&& (h.version == 2 || h.version == 3)
                &&& or_else(raw.width, term_cols(raw.term)) == Some(h.width)
                &&& or_else(raw.height, term_rows(raw.term)) == Some(h.height)
                &&& h.theme == or_else(raw.theme, term_theme(raw.term))
                &&& h.timestamp == raw.timestamp
                &&& h.env == raw.env
            },
            Err(ParseError::UnsupportedVersion(s)) => {
                &&& known_version(raw.version) is None
                &&& s@ == shown_version(raw.version)
            },
            Err(ParseError::MissingDimensions) => {
                &&& known_version(raw.version) is Some
                &&& (or_else(raw.width, term_cols(raw.term)) is None || or_else(
                    raw.height,
                    term_rows(raw.term),
                ) is None)
            },
            Err(_) => false,
        },
{
    let version: u8 = match &raw.version {
        Some(f) => match f.number {
            Some(2) => 2,
            Some(3) => 3,
            _ => {
                return Err(ParseError::UnsupportedVersion(f.text.clone()));
            },
        },
        None => {
            return Err(ParseError::UnsupportedVersion(String::from_str("<missing>")));
        },
    };
    let RawHeader { version: _, width, height, theme, timestamp, env, term } = raw;
    let (tcols, trows, ttheme) = match term {
        Some(t) => (t.cols, t.rows, t.theme),
        None => (None, None, None),
    };
    let width = match width {
        Some(w) => w,
        None => match tcols {
            Some(w) => w,
            None => {
                return Err(ParseError::MissingDimensions);
            },
        },
    };
    let height = match height {
        Some(h) => h,
        None => match trows {
            Some(h) => h,
            None => {
                return Err(ParseError::MissingDimensions);
            },
        },
    };
    let theme = match theme {
        Some(t) => Some(t),
        None => ttheme,
    };
    Ok(Header { version, width, height, timestamp, theme, env })
}

/// One event line of a document: its 1-based line number and its text with
/// surrounding white space removed.
pub struct EventLine {
    pub line: usize,
    pub text: String,
}

/// A document split into its header line and its event lines.
pub struct CastLayout {
    pub header: String,
    pub events: Vec<EventLine>,
}

/// The index of the first line at or after `i` that is not blank.
pub open spec fn first_content_from(lines: Seq<Seq<char>>, i: int) -> Option<int>
    decreases lines.len() - i,
{
    if i < 0 || i >= lines.len() {
        None
    } else if trim(lines[i]).len() > 0 {
        Some(i)
    } else {
        first_content_from(lines, i + 1)
    }
}

/// The event lines among the first `n` lines that come after line index
/// `header`: every such line whose trimmed text is non-empty and does not
/// start with `#`, as its 1-based line number and trimmed text.
pub open spec fn event_lines(lines: Seq<Seq<char>>, header: int, n: int) -> Seq<(nat, Seq<char>)>
    decreases n - header,
{
    if n <= header + 1 {
        Seq::empty()
    } else {
        let prev = event_lines(lines, header, n - 1);
        let t = trim(lines[n - 1]);
        if t.len() > 0 && t[0] != '#' {
            prev.push((n as nat, t))
        } else {
            prev
        }
    }
}

impl CastLayout {
    /// The event lines as (line number, text) pairs.
    pub open spec fn event_view(&self) -> Seq<(nat, Seq<char>)> {
        self.events@.map_values(|e: EventLine| (e.line as nat, e.text@))
    }
}

/// Splits a `.cast` document into lines: the header is the first line that
/// is not blank (blank lines before it are skipped); the events are taken
/// from the lines after the header, skipping blank lines and `#` comments.
pub fn split_document(input: &str) -> (r: Result<CastLayout, ParseError>)
    ensures
        match r {
            Ok(layout) => {
                &&& first_content_from(lines_of(input@), 0) is Some
                &&& layout.header@ == lines_of(input@)[first_content_from(
                    lines_of(input@),
                    0,
                ).unwrap()]
                &&& layout.event_view() == event_lines(
                    lines_of(input@),
                    first_content_from(lines_of(input@), 0).unwrap(),
                    lines_of(input@).len() as int,
                )
            },
            Err(e) => {
                &&& e == ParseError::EmptyInput
                &&& first_content_from(lines_of(input@), 0) is None
            },
        },
{
    let v = chars_of(input);
    let spans = line_spans(&v);
    let ghost lines = lines_of(v@);
    let n = spans.len();
    let mut i: usize = 0;
    while i < n
        invariant
            n == spans@.len(),
            n == lines.len(),
            lines == lines_of(v@),
            i <= n,
            first_content_from(lines, 0) == first_content_from(lines, i as int),
            forall|k: int|
                0 <= k < spans@.len() ==> {
                    &&& (#[trigger] spans@[k]).start <= spans@[k].end <= v@.len()
                    &&& v@.subrange(spans@[k].start as int, spans@[k].end as int) == lines[k]
                },
        ensures
            i < n ==> trim(lines[i as int]).len() > 0,
        decreases n - i,
    {
        let (a, b) = trim_range(&v, spans[i].start, spans[i].end);
        if a < b {
            break;
        }
        i = i + 1;
    }
    if i == n {
        return Err(ParseError::EmptyInput);
    }
    let header = string_of(&v, spans[i].start, spans[i].end);
    let mut events: Vec<EventLine> = Vec::new();
    assert(first_content_from(lines, 0) == Some(i as int));
    let mut k: usize = i + 1;
    assert(events@.map_values(|e: EventLine| (e.line as nat, e.text@)) =~= event_lines(
        lines,
        i as int,
        k as int,
    ));
    while k < n
        invariant
            n == spans@.len(),
            n == lines.len(),
            i < k <= n,
            forall|j: int|
                0 <= j < spans@.len() ==> {
                    &&& (#[trigger] spans@[j]).start <= spans@[j].end <= v@.len()
                    &&& v@.subrange(spans@[j].start as int, spans@[j].end as int) == lines[j]
                },
            events@.map_values(|e: EventLine| (e.line as nat, e.text@)) == event_lines(
                lines,
                i as int,
                k as int,
            ),
        decreases n - k,
    {
        let (a, b) = trim_range(&v, spans[k].start, spans[k].end);
        if a < b && v[a] != '#' {
            let text = string_of(&v, a, b);
            let ghost before = events@;
            events.push(EventLine { line: k + 1, text });
            assert(events@.map_values(|e: EventLine| (e.line as nat, e.text@)) =~= before.map_values(
                |e: EventLine| (e.line as nat, e.text@),
            ).push(((k + 1) as nat, trim(lines[k as int]))));
        }
        k = k + 1;
    }
    Ok(CastLayout { header, events })
}

/// The header of a composed recording: the source header with the
/// project's output width and height where given, written as version 2.
pub fn compose_header(source: Header, out_width: Option<u16>, out_height: Option<u16>) -> (h: Header)
    ensures
        h.version == 2,
        h.width == match out_width {
            Some(w) => w,
            None => source.width,
        },
        h.height == match out_height {
            Some(v) => v,
            None => source.height,
        },
        h.timestamp == source.timestamp,
        h.theme == source.theme,
        h.env == source.env,
{
    let mut h = source;
    if let Some(w) = out_width {
        h.width = w;
    }
    if let Some(v) = out_height {
        h.height = v;
    }
    h.version = 2;
    h
}

} // verus!
