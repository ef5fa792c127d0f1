use paperview::report::{
    config_path_text, export_path, format_bytes, format_duration, is_reserved_command, perf_text,
    startup_perf_text, stats_text, tex_compile_input, tex_compile_text, workspace_search_text,
    window_startup_text, PerfReport, ScrollWorkload, StartupPerfReport, StartupTarget, WindowStartupReport,
    LOAD_TARGET_MICROS,
    MEMORY_TARGET_BYTES,
};
use paperview::{Config, ConfigStore, Document, TexCompileArtifact, WorkspaceSearchMatch};

#[test]
fn formats_stats_report() {
    let document = Document::from_source("# PaperView\n\nNative paper reader.");
    let report = stats_text(&document);

    assert!(report.contains("Title: PaperView"));
    assert!(report.contains("Words: 4"));
    assert!(report.contains("Estimated reading time: 1 min"));
    assert!(report.contains("Heading structure:\n- PaperView"));
}

#[test]
fn formats_perf_report() {
    let report = PerfReport {
        path: "docs/PRD.md".into(),
        bytes: 128,
        source_lines: 12,
        blocks: 4,
        headings: 2,
        rendered_lines: 9,
        scroll_workload: ScrollWorkload::from_rendered_lines(9),
        estimated_memory_bytes: 2_048,
        memory_target_bytes: MEMORY_TARGET_BYTES,
        load_target_micros: LOAD_TARGET_MICROS,
        config_micros: 100,
        history_micros: 150,
        read_micros: 250,
        parse_micros: 1_500,
        render_micros: 2_250,
        total_micros: 4_250,
    };
    let text = perf_text(&report);

    assert!(text.contains("File: docs/PRD.md"));
    assert!(text.contains("Bytes: 128"));
    assert!(text.contains("Parsed blocks: 4"));
    assert!(text.contains(
        "Scroll workload: 1 viewports at 40 lines, 0 synthetic steps, avg 9 lines/viewport"
    ));
    assert!(text.contains("Scroll target: under 10000 synthetic steps (ok)"));
    assert!(text.contains("Estimated memory: 2.0KiB"));
    assert!(text.contains("Memory target: under 100.0MiB (ok)"));
    assert!(text.contains("Config load: 100us"));
    assert!(text.contains("History load: 150us"));
    assert!(text.contains("Read: 250us"));
    assert!(text.contains("Parse: 1.50ms"));
    assert!(text.contains("Total: 4.25ms"));
    assert!(text.contains("Load target: under 500.00ms (ok)"));
}

#[test]
fn formats_dashboard_startup_report() {
    let report = StartupPerfReport {
        target: StartupTarget::Dashboard,
        file: None,
        document_count: 0,
        rendered_lines: 0,
        toc_items: 0,
        history_entries: 2,
        watcher_enabled: false,
        selected_history_entry: Some(0),
        load_target_micros: LOAD_TARGET_MICROS,
        document_open_micros: 0,
        app_state_micros: 2_000,
        total_micros: 2_500,
    };
    let text = startup_perf_text(&report);

    assert!(text.contains("Startup target: dashboard"));
    assert!(text.contains("History entries: 2"));
    assert!(text.contains("Selected history entry: 0"));
    assert!(text.contains("App state: 2.00ms"));
    assert!(text.contains("Startup target: under 500.00ms (ok)"));
}

#[test]
fn formats_reader_startup_report() {
    let report = StartupPerfReport {
        target: StartupTarget::Reader,
        file: Some("docs/PRD.md".into()),
        document_count: 1,
        rendered_lines: 177,
        toc_items: 23,
        history_entries: 0,
        watcher_enabled: true,
        selected_history_entry: None,
        load_target_micros: LOAD_TARGET_MICROS,
        document_open_micros: 1_500,
        app_state_micros: 3_000,
        total_micros: 4_500,
    };
    let text = startup_perf_text(&report);

    assert!(text.contains("Startup target: reader"));
    assert!(text.contains("File: docs/PRD.md"));
    assert!(text.contains("Documents: 1"));
    assert!(text.contains("Rendered TUI lines: 177"));
    assert!(text.contains("TOC items: 23"));
    assert!(text.contains("File watcher: enabled"));
    assert!(text.contains("Document open: 1.50ms"));
    assert!(text.contains("Startup target: under 500.00ms (ok)"));
}

#[test]
fn formats_duration_units() {
    assert_eq!(format_duration(999), "999us");
    assert_eq!(format_duration(1_000), "1.00ms");
}

#[test]
fn formats_memory_units() {
    assert_eq!(format_bytes(999), "999B");
    assert_eq!(format_bytes(2 * 1024), "2.0KiB");
    assert_eq!(format_bytes(100 * 1024 * 1024), "100.0MiB");
}

#[test]
fn rounds_halves_to_even_like_float_formatting() {
    assert_eq!(format_bytes(1280), "1.2KiB");
    assert_eq!(format_bytes(1792), "1.8KiB");
    assert_eq!(format_bytes(1023 * 1024 + 1000), "1024.0KiB");
    assert_eq!(format_duration(1_234), "1.23ms");
    assert_eq!(format_duration(1_125), "1.12ms");
    assert_eq!(format_duration(1_999_999), "2000.00ms");
}

#[test]
fn formats_config_path() {
    let store = ConfigStore::new("/tmp/paperview-test-config.toml");

    assert_eq!(config_path_text(&store), "/tmp/paperview-test-config.toml");
}

#[test]
fn formats_workspace_search_report() {
    let matches = vec![WorkspaceSearchMatch {
        path: "docs/PRD.md".into(),
        line_number: 1,
        column: 3,
        line: "PaperView".to_owned(),
    }];

    assert_eq!(workspace_search_text(&matches), "docs/PRD.md:1:3: PaperView");
    assert_eq!(workspace_search_text(&[]), "No matches");
}

#[test]
fn derives_export_path() {
    let document = Document::from_source("# PaperView").with_path("docs/PRD.md");

    assert_eq!(export_path(&document, "html").expect("export path"), "docs/PRD.html");
    assert_eq!(export_path(&document, "pdf").expect("export path"), "docs/PRD.pdf");
    assert!(export_path(&Document::from_source("x"), "pdf").is_err());
}

#[test]
fn formats_tex_compile_report() {
    let artifact = TexCompileArtifact::new("docs/resume.pdf", "compiled with Tectonic");
    assert_eq!(tex_compile_text(&artifact), "Compiled docs/resume.pdf");

    let artifact = TexCompileArtifact::new("docs/resume.pdf", "warning: missing reference\n");
    assert_eq!(
        tex_compile_text(&artifact),
        "Compiled docs/resume.pdf\nwarning: missing reference"
    );
}

#[test]
fn tex_compile_input_uses_configured_compiler_path() {
    let default_input = tex_compile_input("docs/resume.tex", &Config::default());
    assert_eq!(default_input.compiler_path(), "tectonic");

    let input = tex_compile_input(
        "docs/resume.tex",
        &Config {
            tex_compiler_path: Some("/opt/tectonic/tectonic".to_owned()),
            ..Config::default()
        },
    );

    assert_eq!(input.compiler_path(), "/opt/tectonic/tectonic");
}

#[test]
fn recognizes_reserved_commands() {
    assert!(is_reserved_command("search"));
    assert!(is_reserved_command("perf"));
    assert!(is_reserved_command("tex"));
    assert!(!is_reserved_command("docs/PRD.md"));
}

#[test]
fn scroll_workload_counts_viewports() {
    let w = ScrollWorkload::from_rendered_lines(81);
    assert_eq!((w.viewport_count, w.scroll_steps), (3, 41));
    assert_eq!(w.average_lines_per_viewport(81), 27);
    assert_eq!(ScrollWorkload::from_rendered_lines(0).viewport_count, 1);
    assert_eq!(w.target_status(), "ok");
}

#[test]
fn main_formats_dashboard_startup_report() {
    let report = WindowStartupReport {
        target: StartupTarget::Dashboard,
        file: None,
        document_count: 0,
        history_entries: 2,
        active_toc_items: 0,
        remote_image_placeholders: 0,
        status: "empty".to_owned(),
        load_target_micros: LOAD_TARGET_MICROS,
        app_state_micros: 2_000,
        total_micros: 2_500,
    };
    let text = window_startup_text(&report);

    assert!(text.contains("Startup target: dashboard"));
    assert!(text.contains("Status: empty"));
    assert!(text.contains("Documents: 0"));
    assert!(text.contains("History entries: 2"));
    assert!(text.contains("App state: 2.00ms"));
    assert!(text.contains("Startup target: under 500.00ms (ok)"));
}

#[test]
fn main_formats_reader_startup_report() {
    let report = WindowStartupReport {
        target: StartupTarget::Reader,
        file: Some("docs/PRD.md".into()),
        document_count: 1,
        history_entries: 3,
        active_toc_items: 23,
        remote_image_placeholders: 0,
        status: "loaded".to_owned(),
        load_target_micros: LOAD_TARGET_MICROS,
        app_state_micros: 4_000,
        total_micros: 4_500,
    };
    let text = window_startup_text(&report);

    assert!(text.contains("Startup target: reader"));
    assert!(text.contains("File: docs/PRD.md"));
    assert!(text.contains("Status: loaded"));
    assert!(text.contains("Documents: 1"));
    assert!(text.contains("Active TOC items: 23"));
    assert!(text.contains("Startup target: under 500.00ms (ok)"));
}

#[test]
fn main_formats_duration_units() {
    assert_eq!(format_duration(999), "999us");
    assert_eq!(format_duration(1_000), "1.00ms");
}

#[test]
fn window_startup_report_lists_every_line() {
    let report = WindowStartupReport {
        target: StartupTarget::Reader,
        file: Some("a.md".into()),
        document_count: 1,
        history_entries: 0,
        active_toc_items: 2,
        remote_image_placeholders: 1,
        status: "loaded".to_owned(),
        load_target_micros: 500,
        app_state_micros: 400,
        total_micros: 600,
    };
    assert_eq!(
        window_startup_text(&report),
        "Startup target: reader\nFile: a.md\nStatus: loaded\nDocuments: 1\nHistory entries: 0\nActive TOC items: 2\nRemote image placeholders: 1\nApp state: 400us\nTotal: 600us\nStartup target: under 500us (over)"
    );
}
