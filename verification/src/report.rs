use vstd::prelude::*;

use crate::config::{Config, ConfigStore};
use crate::document::Document;
use crate::paths::{path_with_extension, with_extension};
use crate::render::{joined, push_joined, push_repeated, repeated};
use crate::search::WorkspaceSearchMatch;
use crate::stats::{reading_minutes, stats_heading_of, word_count_of};
use crate::tex::{tex_artifact_path_of, TexCompileArtifact, TexCompileInput};
use crate::text::{chars_eq, chars_of, decimal, decimal_chars, digit_char, lines, push_chars, push_str, trim, trim_chars};

verus! {

/// `num / den` rounded to the nearest whole number, halves to the even one.
pub open spec fn round_half_even(num: nat, den: nat) -> nat {
    let q = num / den;
    let r = num % den;
    if 2 * r > den {
        q + 1
    } else if 2 * r == den {
        q + q % 2
    } else {
        q
    }
}

fn round_half_even_exec(num: u128, den: u128) -> (r: u128)
    requires
        den > 0,
        num / den < u128::MAX,
    ensures
        r == round_half_even(num as nat, den as nat),
{
    let q = num / den;
    let rem = num % den;
    assert(rem < den);
    if rem > den - rem {
        q + 1
    } else if rem == den - rem {
        q + q % 2
    } else {
        q
    }
}

/// A number of tenths written with one decimal place.
pub open spec fn tenths_text(t: nat) -> Seq<char> {
    decimal(t / 10) + seq!['.', digit_char(t % 10)]
}

/// A number of hundredths written with two decimal places.
pub open spec fn hundredths_text(h: nat) -> Seq<char> {
    decimal(h / 100) + seq!['.', digit_char((h % 100) / 10), digit_char(h % 10)]
}

/// A size in bytes as text: bytes below a kibibyte, then kibibytes below a
/// mebibyte, then mebibytes, with one decimal rounded half to even.
pub open spec fn bytes_text_of(bytes: nat) -> Seq<char> {
    if bytes < 1024 {
        decimal(bytes) + seq!['B']
    } else if bytes < 1048576 {
        tenths_text(round_half_even(bytes * 10, 1024)) + "KiB"@
    } else {
        tenths_text(round_half_even(bytes * 10, 1048576)) + "MiB"@
    }
}

/// A duration in microseconds as text: microseconds below a millisecond,
/// else milliseconds with two decimals rounded half to even.
pub open spec fn duration_text_of(micros: nat) -> Seq<char> {
    if micros < 1000 {
        decimal(micros) + seq!['u', 's']
    } else {
        hundredths_text(round_half_even(micros, 10)) + seq!['m', 's']
    }
}

fn push_tenths(out: &mut String, t: u128)
    requires
        t <= u64::MAX,
    ensures
        final(out)@ == old(out)@ + tenths_text(t as nat),
{
    let whole = decimal_chars((t / 10) as u64);
    push_chars(out, whole.as_slice());
    out.push('.');
    out.push(((t % 10) as u8 + 48) as char);
    assert(out@ =~= old(out)@ + tenths_text(t as nat));
}

/// A size in bytes as text.
pub fn format_bytes(bytes: u64) -> (r: String)
    ensures
        r@ == bytes_text_of(bytes as nat),
{
    let mut out = String::new();
    if bytes < 1024 {
        let d = decimal_chars(bytes);
        push_chars(&mut out, d.as_slice());
        out.push('B');
        assert(out@ =~= bytes_text_of(bytes as nat));
        return out;
    }
    let b = bytes as u128;
    assert(b * 10 <= u64::MAX * 10);
    if bytes < 1048576 {
        let t = round_half_even_exec(b * 10, 1024);
        assert(t <= (b * 10) / 1024 + 1);
        push_tenths(&mut out, t);
        push_str(&mut out, "KiB");
    } else {
        let t = round_half_even_exec(b * 10, 1048576);
        assert(t <= (b * 10) / 1048576 + 1);
        push_tenths(&mut out, t);
        push_str(&mut out, "MiB");
    }
    out
}

/// A duration, given in microseconds, as text.
pub fn format_duration(micros: u64) -> (r: String)
    ensures
        r@ == duration_text_of(micros as nat),
{
    let mut out = String::new();
    if micros < 1000 {
        let d = decimal_chars(micros);
        push_chars(&mut out, d.as_slice());
        out.push('u');
        out.push('s');
        assert(out@ =~= duration_text_of(micros as nat));
        return out;
    }
    let h = round_half_even_exec(micros as u128, 10);
    assert(h <= micros as u128 / 10 + 1);
    let whole = decimal_chars((h / 100) as u64);
    push_chars(&mut out, whole.as_slice());
    out.push('.');
    out.push((((h % 100) / 10) as u8 + 48) as char);
    out.push(((h % 10) as u8 + 48) as char);
    out.push('m');
    out.push('s');
    assert(out@ =~= duration_text_of(micros as nat));
    out
}

/// The lines shown per viewport in the scroll workload.
pub const SCROLL_WORKLOAD_VIEWPORT_LINES: usize = 40;
/// The most synthetic scroll steps the workload may take.
pub const SCROLL_WORKLOAD_TARGET_STEPS: usize = 10000;
/// The memory a document may take, in bytes.
pub const MEMORY_TARGET_BYTES: u64 = 104857600;
/// How long loading may take, in microseconds.
pub const LOAD_TARGET_MICROS: u64 = 500000;

/// The work of scrolling a rendered document viewport by viewport.
#[derive(Debug, Clone, Copy, PartialEq, Eq, Structural)]
pub struct ScrollWorkload {
    pub viewport_lines: usize,
    pub viewport_count: usize,
    pub scroll_steps: usize,
    pub target_steps: usize,
}

impl ScrollWorkload {
    /// The workload for a number of rendered lines: the viewports needed to
    /// show them (at least one) and the single-line steps to reach the end.
    pub fn from_rendered_lines(rendered_lines: usize) -> (r: ScrollWorkload)
        ensures
            r.viewport_lines == SCROLL_WORKLOAD_VIEWPORT_LINES,
            r.viewport_count == if rendered_lines == 0 {
                1
            } else {
                (rendered_lines + SCROLL_WORKLOAD_VIEWPORT_LINES - 1) / SCROLL_WORKLOAD_VIEWPORT_LINES as int
            },
            r.scroll_steps == if rendered_lines > SCROLL_WORKLOAD_VIEWPORT_LINES {
                rendered_lines - SCROLL_WORKLOAD_VIEWPORT_LINES
            } else {
                0
            },
            r.target_steps == SCROLL_WORKLOAD_TARGET_STEPS,
    {
        let whole = rendered_lines / SCROLL_WORKLOAD_VIEWPORT_LINES;
        let count = if rendered_lines % SCROLL_WORKLOAD_VIEWPORT_LINES == 0 {
            whole
        } else {
            whole + 1
        };
        let viewport_count = if count == 0 {
            1
        } else {
            count
        };
        let scroll_steps = if rendered_lines > SCROLL_WORKLOAD_VIEWPORT_LINES {
            rendered_lines - SCROLL_WORKLOAD_VIEWPORT_LINES
        } else {
            0
        };
        ScrollWorkload {
            viewport_lines: SCROLL_WORKLOAD_VIEWPORT_LINES,
            viewport_count,
            scroll_steps,
            target_steps: SCROLL_WORKLOAD_TARGET_STEPS,
        }
    }

    /// The rendered lines per viewport, rounded up.
    pub fn average_lines_per_viewport(self, rendered_lines: usize) -> (r: usize)
        requires
            self.viewport_count > 0,
        ensures
            r == (rendered_lines + self.viewport_count - 1) / self.viewport_count as int,
    {
        let whole = rendered_lines / self.viewport_count;
        let r = if rendered_lines % self.viewport_count == 0 {
            whole
        } else {
            assert(whole < usize::MAX) by (nonlinear_arith)
                requires
                    whole == rendered_lines / self.viewport_count,
                    rendered_lines % self.viewport_count != 0,
                    self.viewport_count > 0,
                    rendered_lines <= usize::MAX,
            {
                if self.viewport_count == 1 {
                    assert(rendered_lines % 1 == 0);
                }
            }
            whole + 1
        };
        assert(r == (rendered_lines + self.viewport_count - 1) / self.viewport_count as int) by (nonlinear_arith)
            requires
                self.viewport_count > 0,
                whole == rendered_lines / self.viewport_count,
                r == if rendered_lines % self.viewport_count == 0 {
                    whole as int
                } else {
                    whole + 1
                },
        ;
        r
    }

    /// Whether the steps stay within the target.
    pub fn target_status(self) -> (r: &'static str)
        ensures
            r@ == if self.scroll_steps <= self.target_steps {
                "ok"@
            } else {
                "over"@
            },
    {
        if self.scroll_steps <= self.target_steps {
            "ok"
        } else {
            "over"
        }
    }
}

/// `ok` when `within`, else `over`.
pub open spec fn status_of(within: bool) -> Seq<char> {
    if within {
        "ok"@
    } else {
        "over"@
    }
}

/// How a document loaded and rendered, with sizes in bytes and durations
/// in microseconds.
#[derive(Debug, Clone, PartialEq, Eq)]
pub struct PerfReport {
    pub path: String,
    pub bytes: usize,
    pub source_lines: usize,
    pub blocks: usize,
    pub headings: usize,
    pub rendered_lines: usize,
    pub scroll_workload: ScrollWorkload,
    pub estimated_memory_bytes: usize,
    pub memory_target_bytes: u64,
    pub load_target_micros: u64,
    pub config_micros: u64,
    pub history_micros: u64,
    pub read_micros: u64,
    pub parse_micros: u64,
    pub render_micros: u64,
    pub total_micros: u64,
}

/// The lines of a performance report.
pub open spec fn perf_lines_of(r: PerfReport) -> Seq<Seq<char>> {
    seq![
        "File: "@ + r.path@,
        "Bytes: "@ + decimal(r.bytes as nat),
        "Source lines: "@ + decimal(r.source_lines as nat),
        "Parsed blocks: "@ + decimal(r.blocks as nat),
        "Headings: "@ + decimal(r.headings as nat),
        "Rendered TUI lines: "@ + decimal(r.rendered_lines as nat),
        "Scroll workload: "@ + decimal(r.scroll_workload.viewport_count as nat) + " viewports at "@ + decimal(
            r.scroll_workload.viewport_lines as nat,
        ) + " lines, "@ + decimal(r.scroll_workload.scroll_steps as nat) + " synthetic steps, avg "@ + decimal(
            ((r.rendered_lines + r.scroll_workload.viewport_count - 1) / r.scroll_workload.viewport_count as int) as nat,
        ) + " lines/viewport"@,
        "Scroll target: under "@ + decimal(r.scroll_workload.target_steps as nat) + " synthetic steps ("@
            + status_of(r.scroll_workload.scroll_steps <= r.scroll_workload.target_steps) + seq![')'],
        "Estimated memory: "@ + bytes_text_of(r.estimated_memory_bytes as nat),
        "Memory target: under "@ + bytes_text_of(r.memory_target_bytes as nat) + " ("@ + status_of(
            r.estimated_memory_bytes <= r.memory_target_bytes,
        ) + seq![')'],
        "Config load: "@ + duration_text_of(r.config_micros as nat),
        "History load: "@ + duration_text_of(r.history_micros as nat),
        "Read: "@ + duration_text_of(r.read_micros as nat),
        "Parse: "@ + duration_text_of(r.parse_micros as nat),
        "Render: "@ + duration_text_of(r.render_micros as nat),
        "Total: "@ + duration_text_of(r.total_micros as nat),
        "Load target: under "@ + duration_text_of(r.load_target_micros as nat) + " ("@ + status_of(
            r.total_micros <= r.load_target_micros,
        ) + seq![')'],
    ]
}

/// A line made of a label and a number.
fn labeled_number(label: &str, n: u64) -> (r: String)
    ensures
        r@ == label@ + decimal(n as nat),
{
    let mut out = String::new();
    push_str(&mut out, label);
    let d = decimal_chars(n);
    push_chars(&mut out, d.as_slice());
    out
}

/// A line made of a label and a duration.
fn labeled_duration(label: &str, micros: u64) -> (r: String)
    ensures
        r@ == label@ + duration_text_of(micros as nat),
{
    let mut out = String::new();
    push_str(&mut out, label);
    let d = format_duration(micros);
    push_str(&mut out, d.as_str());
    out
}

/// A target line: the limit, and whether it was met.
fn target_line(label: &str, limit: String, within: bool) -> (r: String)
    ensures
        r@ == label@ + limit@ + " ("@ + status_of(within) + seq![')'],
{
    let mut out = String::new();
    push_str(&mut out, label);
    push_str(&mut out, limit.as_str());
    push_str(&mut out, " (");
    if within {
        push_str(&mut out, "ok");
    } else {
        push_str(&mut out, "over");
    }
    out.push(')');
    assert(out@ =~= label@ + limit@ + " ("@ + status_of(within) + seq![')']);
    out
}

/// A performance report as text, one measurement per line.
#[verifier::rlimit(100)]
#[verifier::spinoff_prover]
pub fn perf_text(report: &PerfReport) -> (r: String)
    requires
        report.scroll_workload.viewport_count > 0,
    ensures
        r@ == joined(perf_lines_of(*report)),
{
    let w = report.scroll_workload;
    let mut ls: Vec<String> = Vec::new();
    let ghost expected = perf_lines_of(*report);
    let mut file = String::new();
    push_str(&mut file, "File: ");
    push_str(&mut file, report.path.as_str());
    ls.push(file);
    assert(ls@.len() == 1 && ls@[0]@ =~= expected[0]);
    ls.push(labeled_number("Bytes: ", report.bytes as u64));
    assert(ls@.len() == 2 && ls@[1]@ =~= expected[1]);
    ls.push(labeled_number("Source lines: ", report.source_lines as u64));
    assert(ls@.len() == 3 && ls@[2]@ =~= expected[2]);
    ls.push(labeled_number("Parsed blocks: ", report.blocks as u64));
    assert(ls@.len() == 4 && ls@[3]@ =~= expected[3]);
    ls.push(labeled_number("Headings: ", report.headings as u64));
    assert(ls@.len() == 5 && ls@[4]@ =~= expected[4]);
    ls.push(labeled_number("Rendered TUI lines: ", report.rendered_lines as u64));
    assert(ls@.len() == 6 && ls@[5]@ =~= expected[5]);
    let mut scroll = labeled_number("Scroll workload: ", w.viewport_count as u64);
    push_str(&mut scroll, " viewports at ");
    push_chars(&mut scroll, decimal_chars(w.viewport_lines as u64).as_slice());
    push_str(&mut scroll, " lines, ");
    push_chars(&mut scroll, decimal_chars(w.scroll_steps as u64).as_slice());
    push_str(&mut scroll, " synthetic steps, avg ");
    let avg = w.average_lines_per_viewport(report.rendered_lines);
    push_chars(&mut scroll, decimal_chars(avg as u64).as_slice());
    push_str(&mut scroll, " lines/viewport");
    ls.push(scroll);
    assert(ls@.len() == 7 && ls@[6]@ =~= expected[6]);
    let mut steps = labeled_number("Scroll target: under ", w.target_steps as u64);
    push_str(&mut steps, " synthetic steps (");
    push_str(&mut steps, w.target_status());
    steps.push(')');
    ls.push(steps);
    assert(ls@.len() == 8 && ls@[7]@ =~= expected[7]);
    let mut memory = String::new();
    push_str(&mut memory, "Estimated memory: ");
    push_str(&mut memory, format_bytes(report.estimated_memory_bytes as u64).as_str());
    ls.push(memory);
    assert(ls@.len() == 9 && ls@[8]@ =~= expected[8]);
    ls.push(target_line(
        "Memory target: under ",
        format_bytes(report.memory_target_bytes),
        report.estimated_memory_bytes as u64 <= report.memory_target_bytes,
    ));
    assert(ls@.len() == 10 && ls@[9]@ =~= expected[9]);
    ls.push(labeled_duration("Config load: ", report.config_micros));
    assert(ls@.len() == 11 && ls@[10]@ =~= expected[10]);
    ls.push(labeled_duration("History load: ", report.history_micros));
    assert(ls@.len() == 12 && ls@[11]@ =~= expected[11]);
    ls.push(labeled_duration("Read: ", report.read_micros));
    assert(ls@.len() == 13 && ls@[12]@ =~= expected[12]);
    ls.push(labeled_duration("Parse: ", report.parse_micros));
    assert(ls@.len() == 14 && ls@[13]@ =~= expected[13]);
    ls.push(labeled_duration("Render: ", report.render_micros));
    assert(ls@.len() == 15 && ls@[14]@ =~= expected[14]);
    ls.push(labeled_duration("Total: ", report.total_micros));
    assert(ls@.len() == 16 && ls@[15]@ =~= expected[15]);
    ls.push(target_line(
        "Load target: under ",
        format_duration(report.load_target_micros),
        report.total_micros <= report.load_target_micros,
    ));
    assert(ls@.len() == 17 && ls@[16]@ =~= expected[16]);
    assert(ls.deep_view() =~= perf_lines_of(*report));
    let mut out = String::new();
    push_joined(&mut out, &ls);
    out
}

/// What the startup measurement started.
#[derive(Debug, Clone, Copy, PartialEq, Eq, Structural)]
pub enum StartupTarget {
    Dashboard,
    Reader,
}

impl StartupTarget {
    /// The target's name.
    pub fn label(self) -> (r: &'static str)
        ensures
            r@ == startup_label(self),
    {
        match self {
            StartupTarget::Dashboard => "dashboard",
            StartupTarget::Reader => "reader",
        }
    }
}

/// The name of a startup target.
pub open spec fn startup_label(t: StartupTarget) -> Seq<char> {
    match t {
        StartupTarget::Dashboard => "dashboard"@,
        StartupTarget::Reader => "reader"@,
    }
}

/// How the reader or the dashboard started, with durations in microseconds.
#[derive(Debug, Clone, PartialEq, Eq)]
pub struct StartupPerfReport {
    pub target: StartupTarget,
    pub file: Option<String>,
    pub document_count: usize,
    pub rendered_lines: usize,
    pub toc_items: usize,
    pub history_entries: usize,
    pub watcher_enabled: bool,
    pub selected_history_entry: Option<usize>,
    pub load_target_micros: u64,
    pub document_open_micros: u64,
    pub app_state_micros: u64,
    pub total_micros: u64,
}

/// The lines of a startup report.
pub open spec fn startup_lines_of(r: StartupPerfReport) -> Seq<Seq<char>> {
    seq!["Startup target: "@ + startup_label(r.target)] + (match r.file {
        Some(f) => seq!["File: "@ + f@],
        None => Seq::empty(),
    }) + (match r.target {
        StartupTarget::Reader => seq![
            "Documents: "@ + decimal(r.document_count as nat),
            "Rendered TUI lines: "@ + decimal(r.rendered_lines as nat),
            "TOC items: "@ + decimal(r.toc_items as nat),
            "File watcher: "@ + if r.watcher_enabled {
                "enabled"@
            } else {
                "disabled"@
            },
            "Document open: "@ + duration_text_of(r.document_open_micros as nat),
        ],
        StartupTarget::Dashboard => seq![
            "History entries: "@ + decimal(r.history_entries as nat),
            "Selected history entry: "@ + match r.selected_history_entry {
                Some(i) => decimal(i as nat),
                None => "none"@,
            },
        ],
    }) + seq![
        "App state: "@ + duration_text_of(r.app_state_micros as nat),
        "Total: "@ + duration_text_of(r.total_micros as nat),
        "Startup target: under "@ + duration_text_of(r.load_target_micros as nat) + " ("@ + status_of(
            r.total_micros <= r.load_target_micros,
        ) + seq![')'],
    ]
}

/// A startup report as text, one measurement per line.
#[verifier::rlimit(100)]
#[verifier::spinoff_prover]
pub fn startup_perf_text(report: &StartupPerfReport) -> (r: String)
    ensures
        r@ == joined(startup_lines_of(*report)),
{
    let mut ls: Vec<String> = Vec::new();
    let mut first = String::new();
    push_str(&mut first, "Startup target: ");
    push_str(&mut first, report.target.label());
    ls.push(first);
    let ghost head = ls.deep_view();
    match &report.file {
        Some(f) => {
            let mut line = String::new();
            push_str(&mut line, "File: ");
            push_str(&mut line, f.as_str());
            ls.push(line);
        },
        None => {},
    }
    let ghost with_file = ls.deep_view();
    match report.target {
        StartupTarget::Reader => {
            ls.push(labeled_number("Documents: ", report.document_count as u64));
            ls.push(labeled_number("Rendered TUI lines: ", report.rendered_lines as u64));
            ls.push(labeled_number("TOC items: ", report.toc_items as u64));
            let mut watcher = String::new();
            push_str(&mut watcher, "File watcher: ");
            if report.watcher_enabled {
                push_str(&mut watcher, "enabled");
            } else {
                push_str(&mut watcher, "disabled");
            }
            ls.push(watcher);
            ls.push(labeled_duration("Document open: ", report.document_open_micros));
        },
        StartupTarget::Dashboard => {
            ls.push(labeled_number("History entries: ", report.history_entries as u64));
            let mut selected = String::new();
            push_str(&mut selected, "Selected history entry: ");
            match report.selected_history_entry {
                Some(i) => push_chars(&mut selected, decimal_chars(i as u64).as_slice()),
                None => push_str(&mut selected, "none"),
            }
            ls.push(selected);
        },
    }
    ls.push(labeled_duration("App state: ", report.app_state_micros));
    ls.push(labeled_duration("Total: ", report.total_micros));
    ls.push(target_line(
        "Startup target: under ",
        format_duration(report.load_target_micros),
        report.total_micros <= report.load_target_micros,
    ));
    assert(ls.deep_view() =~= startup_lines_of(*report));
    let mut out = String::new();
    push_joined(&mut out, &ls);
    out
}

/// How the reader window started: what it opened and how long that took,
/// in microseconds.
#[derive(Debug, Clone, PartialEq, Eq)]
pub struct WindowStartupReport {
    pub target: StartupTarget,
    pub file: Option<String>,
    pub document_count: usize,
    pub history_entries: usize,
    pub active_toc_items: usize,
    pub remote_image_placeholders: usize,
    pub status: String,
    pub load_target_micros: u64,
    pub app_state_micros: u64,
    pub total_micros: u64,
}

/// The lines of a window startup report.
pub open spec fn window_startup_lines_of(r: WindowStartupReport) -> Seq<Seq<char>> {
    seq!["Startup target: "@ + startup_label(r.target)] + (match r.file {
        Some(f) => seq!["File: "@ + f@],
        None => Seq::empty(),
    }) + seq![
        "Status: "@ + r.status@,
        "Documents: "@ + decimal(r.document_count as nat),
        "History entries: "@ + decimal(r.history_entries as nat),
        "Active TOC items: "@ + decimal(r.active_toc_items as nat),
        "Remote image placeholders: "@ + decimal(r.remote_image_placeholders as nat),
        "App state: "@ + duration_text_of(r.app_state_micros as nat),
        "Total: "@ + duration_text_of(r.total_micros as nat),
        "Startup target: under "@ + duration_text_of(r.load_target_micros as nat) + " ("@ + status_of(
            r.total_micros <= r.load_target_micros,
        ) + seq![')'],
    ]
}

/// A window startup report as text, one measurement per line.
#[verifier::rlimit(60)]
#[verifier::spinoff_prover]
pub fn window_startup_text(report: &WindowStartupReport) -> (r: String)
    ensures
        r@ == joined(window_startup_lines_of(*report)),
{
    let mut ls: Vec<String> = Vec::new();
    let mut first = String::new();
    push_str(&mut first, "Startup target: ");
    push_str(&mut first, report.target.label());
    ls.push(first);
    match &report.file {
        Some(f) => {
            let mut line = String::new();
            push_str(&mut line, "File: ");
            push_str(&mut line, f.as_str());
            ls.push(line);
        },
        None => {},
    }
    let mut status = String::new();
    push_str(&mut status, "Status: ");
    push_str(&mut status, report.status.as_str());
    ls.push(status);
    ls.push(labeled_number("Documents: ", report.document_count as u64));
    ls.push(labeled_number("History entries: ", report.history_entries as u64));
    ls.push(labeled_number("Active TOC items: ", report.active_toc_items as u64));
    ls.push(labeled_number("Remote image placeholders: ", report.remote_image_placeholders as u64));
    ls.push(labeled_duration("App state: ", report.app_state_micros));
    ls.push(labeled_duration("Total: ", report.total_micros));
    ls.push(target_line(
        "Startup target: under ",
        format_duration(report.load_target_micros),
        report.total_micros <= report.load_target_micros,
    ));
    assert(ls.deep_view() =~= window_startup_lines_of(*report));
    let mut out = String::new();
    push_joined(&mut out, &ls);
    out
}

/// The lines of a statistics report.
pub open spec fn stats_lines_of(path: Option<Seq<char>>, title: Seq<char>, source: Seq<char>, headings: Seq<(u8, Seq<char>)>) -> Seq<Seq<char>> {
    let words = word_count_of(source);
    seq![
        "File: "@ + match path {
            Some(p) => p,
            None => "<memory>"@,
        },
        "Title: "@ + title,
        "Words: "@ + decimal(words),
        "Lines: "@ + decimal(lines(source).len()),
        "Characters: "@ + decimal(source.len()),
        "Headings: "@ + decimal(headings.len()),
        "Estimated reading time: "@ + decimal(reading_minutes(words)) + " min"@,
    ] + if headings.len() == 0 {
        Seq::empty()
    } else {
        seq!["Heading structure:"@] + headings.map_values(
            |h: (u8, Seq<char>)| repeated(' ', (2 * (h.0 - 1)) as nat) + seq!['-', ' '] + h.1,
        )
    }
}

/// A document's statistics as text: file, title, counts, reading time and
/// the outline of its headings.
pub fn stats_text(document: &Document) -> (r: String)
    ensures
        r@ == joined(stats_lines_of(
            document.path_view(),
            document.title_view(),
            document.source_view(),
            crate::parser::toc_of(document.parsed_view()).map_values(|item: crate::parser::TocView| stats_heading_of(item)),
        )),
{
    let stats = document.stats();
    let mut ls: Vec<String> = Vec::new();
    let mut file = String::new();
    push_str(&mut file, "File: ");
    match document.path() {
        Some(p) => push_str(&mut file, p.as_str()),
        None => push_str(&mut file, "<memory>"),
    }
    ls.push(file);
    let mut title = String::new();
    push_str(&mut title, "Title: ");
    push_str(&mut title, document.title());
    ls.push(title);
    ls.push(labeled_number("Words: ", stats.word_count as u64));
    ls.push(labeled_number("Lines: ", stats.line_count as u64));
    ls.push(labeled_number("Characters: ", stats.character_count as u64));
    ls.push(labeled_number("Headings: ", stats.heading_count as u64));
    let mut minutes = labeled_number("Estimated reading time: ", stats.estimated_reading_minutes as u64);
    push_str(&mut minutes, " min");
    ls.push(minutes);
    let ghost head = ls.deep_view();
    let ghost hv = stats.headings.deep_view();
    let ghost toc = crate::parser::toc_of(document.parsed_view());
    assert(forall|k: int| 0 <= k < hv.len() ==> (#[trigger] hv[k]).0 >= 1) by {
        assert forall|k: int| 0 <= k < hv.len() implies (#[trigger] hv[k]).0 >= 1 by {
            assert(hv[k] == stats_heading_of(toc[k]));
        }
    }
    if stats.headings.len() > 0 {
        ls.push("Heading structure:".to_owned());
        let ghost base = ls.deep_view();
        let mut i: usize = 0;
        while i < stats.headings.len()
            invariant
                i <= stats.headings@.len(),
                hv == stats.headings.deep_view(),
                forall|k: int| 0 <= k < hv.len() ==> (#[trigger] hv[k]).0 >= 1,
                ls.deep_view() =~= base + hv.take(i as int).map_values(
                    |h: (u8, Seq<char>)| repeated(' ', (2 * (h.0 - 1)) as nat) + seq!['-', ' '] + h.1,
                ),
            decreases stats.headings@.len() - i,
        {
            let h = &stats.headings[i];
            assert(hv[i as int] == h.deep_view());
            let mut line = String::new();
            let indent: usize = if h.depth > 0 {
                2 * (h.depth as usize - 1)
            } else {
                0
            };
            push_repeated(&mut line, ' ', indent);
            line.push('-');
            line.push(' ');
            push_str(&mut line, h.title.as_str());
            assert(line@ =~= repeated(' ', (2 * (hv[i as int].0 - 1)) as nat) + seq!['-', ' '] + hv[i as int].1);
            let ghost before = ls.deep_view();
            ls.push(line);
            assert(ls.deep_view() =~= before.push(line@));
            assert(hv.take(i + 1) =~= hv.take(i as int).push(hv[i as int]));
            i = i + 1;
        }
        assert(hv.take(stats.headings@.len() as int) =~= hv);
    }
    assert(ls.deep_view() =~= stats_lines_of(
        document.path_view(),
        document.title_view(),
        document.source_view(),
        hv,
    ));
    let mut out = String::new();
    push_joined(&mut out, &ls);
    out
}

/// Workspace matches as text: `file:line:column: text` per match, or a
/// note when there are none.
pub open spec fn search_report_of(ms: Seq<(Seq<char>, usize, usize, Seq<char>)>) -> Seq<char> {
    if ms.len() == 0 {
        "No matches"@
    } else {
        joined(ms.map_values(|m: (Seq<char>, usize, usize, Seq<char>)| m.0 + seq![':'] + decimal(m.1 as nat) + seq![':']
            + decimal(m.2 as nat) + seq![':', ' '] + m.3))
    }
}

/// Workspace matches as text.
pub fn workspace_search_text(matches: &[WorkspaceSearchMatch]) -> (r: String)
    ensures
        r@ == search_report_of(matches.deep_view()),
{
    if matches.len() == 0 {
        return "No matches".to_owned();
    }
    let ghost mv = matches.deep_view();
    let mut ls: Vec<String> = Vec::new();
    let mut i: usize = 0;
    while i < matches.len()
        invariant
            i <= matches@.len(),
            mv == matches.deep_view(),
            ls.deep_view() =~= mv.take(i as int).map_values(
                |m: (Seq<char>, usize, usize, Seq<char>)| m.0 + seq![':'] + decimal(m.1 as nat) + seq![':'] + decimal(
                    m.2 as nat,
                ) + seq![':', ' '] + m.3,
            ),
        decreases matches@.len() - i,
    {
        let m = &matches[i];
        assert(mv[i as int] == m.deep_view());
        let mut line = String::new();
        push_str(&mut line, m.path.as_str());
        line.push(':');
        push_chars(&mut line, decimal_chars(m.line_number as u64).as_slice());
        line.push(':');
        push_chars(&mut line, decimal_chars(m.column as u64).as_slice());
        line.push(':');
        line.push(' ');
        push_str(&mut line, m.line.as_str());
        assert(line@ =~= mv[i as int].0 + seq![':'] + decimal(mv[i as int].1 as nat) + seq![':'] + decimal(
            mv[i as int].2 as nat,
        ) + seq![':', ' '] + mv[i as int].3);
        let ghost before = ls.deep_view();
        ls.push(line);
        assert(ls.deep_view() =~= before.push(line@));
        assert(mv.take(i + 1) =~= mv.take(i as int).push(mv[i as int]));
        i = i + 1;
    }
    assert(mv.take(matches@.len() as int) =~= mv);
    let mut out = String::new();
    push_joined(&mut out, &ls);
    out
}

/// Where an export of a file-backed document goes: beside it, with the
/// format's extension; an in-memory document cannot be exported.
pub fn export_path(document: &Document, extension: &str) -> (r: Result<String, String>)
    requires
        crate::paths::has_no_separator(extension@),
    ensures
        match document.path_view() {
            Some(p) => r matches Ok(s) && s@ == path_with_extension(p, extension@),
            None => r matches Err(e) && e@ == "cannot export an in-memory document"@,
        },
{
    match document.path() {
        Some(p) => Ok(with_extension(p.as_str(), extension)),
        None => Err("cannot export an in-memory document".to_owned()),
    }
}

/// A compile report: the PDF, then what the compiler said unless it said
/// nothing worth showing.
pub open spec fn tex_report_of(output_path: Seq<char>, diagnostics: Seq<char>) -> Seq<char> {
    let d = trim(diagnostics);
    if d.len() == 0 || d == "compiled with Tectonic"@ {
        "Compiled "@ + output_path
    } else {
        "Compiled "@ + output_path + seq!['\n'] + d
    }
}

/// A compile report as text.
pub fn tex_compile_text(artifact: &TexCompileArtifact) -> (r: String)
    ensures
        r@ == tex_report_of(artifact@.0, artifact@.1),
{
    let cs = chars_of(artifact.diagnostics());
    let d = trim_chars(cs.as_slice());
    let plain = chars_of("compiled with Tectonic");
    let mut out = String::new();
    push_str(&mut out, "Compiled ");
    push_str(&mut out, artifact.output_path());
    if !(d.len() == 0 || chars_eq(d.as_slice(), plain.as_slice())) {
        out.push('\n');
        push_chars(&mut out, d.as_slice());
    }
    assert(out@ =~= tex_report_of(artifact@.0, artifact@.1));
    out
}

/// What to compile for `path` under `config`: the managed output path, and
/// the configured compiler when one is set.
pub fn tex_compile_input(path: &str, config: &Config) -> (r: TexCompileInput)
    ensures
        r@ == (path@, tex_artifact_path_of(path@), match config.tex_compiler_path {
            Some(c) => c@,
            None => "tectonic"@,
        }),
{
    let input = TexCompileInput::new(path);
    match &config.tex_compiler_path {
        Some(c) => input.with_compiler_path(c),
        None => input,
    }
}

/// The configuration file's path, as shown to the user.
pub fn config_path_text(store: &ConfigStore) -> (r: String)
    ensures
        r@ == store@,
{
    store.path().to_owned()
}

/// The commands of the terminal reader, which no file path may shadow.
pub open spec fn is_reserved_command_of(value: Seq<char>) -> bool {
    value == "search"@ || value == "stats"@ || value == "perf"@ || value == "export"@ || value == "tex"@
        || value == "config"@
}

/// Whether `value` names a command rather than a file.
pub fn is_reserved_command(value: &str) -> (r: bool)
    ensures
        r == is_reserved_command_of(value@),
{
    let cs = chars_of(value);
    let commands = ["search", "stats", "perf", "export", "tex", "config"];
    assert(commands@[0] == "search" && commands@[1] == "stats" && commands@[2] == "perf"
        && commands@[3] == "export" && commands@[4] == "tex" && commands@[5] == "config");
    let mut i: usize = 0;
    while i < 6
        invariant
            i <= 6,
            cs@ == value@,
            commands@[0] == "search" && commands@[1] == "stats" && commands@[2] == "perf"
                && commands@[3] == "export" && commands@[4] == "tex" && commands@[5] == "config",
            forall|k: int| 0 <= k < i ==> value@ != (#[trigger] commands@[k])@,
        decreases 6 - i,
    {
        let c = chars_of(commands[i]);
        if chars_eq(cs.as_slice(), c.as_slice()) {
            return true;
        }
        i = i + 1;
    }
    false
}

} // verus!
