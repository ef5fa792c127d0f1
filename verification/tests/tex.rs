use paperview::tex::{
    generated_pdf_needs_move, generated_pdf_path, tectonic_diagnostics, tectonic_generated_pdf_name, tex_compile_result,
    tex_output_dir,
};
use paperview::{tex_pdf_artifact_path, TexCompileArtifact, TexCompileError, TexCompileInput};

#[test]
fn tex_pdf_artifact_path_replaces_extension() {
    assert_eq!(tex_pdf_artifact_path("resume.tex"), ".paperview/tex/resume.pdf");
    assert_eq!(
        tex_pdf_artifact_path("archive.resume.tex"),
        ".paperview/tex/archive.resume.pdf"
    );
    assert_eq!(
        tex_pdf_artifact_path("docs/resume.tex"),
        "docs/.paperview/tex/resume.pdf"
    );
}

#[test]
fn tex_compile_input_defaults_to_managed_artifact_path() {
    let input = TexCompileInput::new("docs/resume.tex");

    assert_eq!(input.entry_path(), "docs/resume.tex");
    assert_eq!(input.output_path(), "docs/.paperview/tex/resume.pdf");
    assert_eq!(input.compiler_path(), "tectonic");
}

#[test]
fn tex_compile_input_accepts_explicit_output_path() {
    let input = TexCompileInput::new("resume.tex").with_output_path("target/paperview/resume.pdf");

    assert_eq!(input.entry_path(), "resume.tex");
    assert_eq!(input.output_path(), "target/paperview/resume.pdf");
}

#[test]
fn compiler_reports_and_names() {
    assert_eq!(tectonic_diagnostics("  \n", "\t"), "compiled with Tectonic");
    assert_eq!(tectonic_diagnostics(" note: ok \n", " warning "), "note: ok\nwarning");
    assert_eq!(tectonic_diagnostics("", " failed "), "failed");
    assert_eq!(tex_output_dir("resume.pdf"), ".");
    assert_eq!(tex_output_dir("out/resume.pdf"), "out");
    assert_eq!(tectonic_generated_pdf_name("docs/cv.tex"), "cv.pdf");
    let input = TexCompileInput::new("a.tex").with_compiler_path("/opt/tectonic");
    assert_eq!(input.compiler_path(), "/opt/tectonic");
    let artifact = TexCompileArtifact::new("a.pdf", "ok");
    assert_eq!((artifact.output_path(), artifact.diagnostics()), ("a.pdf", "ok"));
    let error = TexCompileError::CompilerUnavailable {
        compiler_path: "/definitely-missing-paperview-tectonic".to_owned(),
        source: "not found".to_owned(),
    };
    assert!(error.message().contains("/definitely-missing-paperview-tectonic"));
    assert_eq!(
        TexCompileError::OutputMissing { path: "x.pdf".to_owned() }.message(),
        "Tectonic did not produce x.pdf"
    );
}

#[test]
fn interprets_finished_compiles() {
    let input = TexCompileInput::new("docs/resume.tex");
    assert_eq!(generated_pdf_path(&input), "docs/.paperview/tex/resume.pdf");
    assert!(!generated_pdf_needs_move(&input));
    let custom = TexCompileInput::new("docs/resume.tex").with_output_path("out/custom.pdf");
    assert_eq!(generated_pdf_path(&custom), "out/resume.pdf");
    assert!(generated_pdf_needs_move(&custom));

    match tex_compile_result(&input, false, "", " bad ", true) {
        Err(TexCompileError::CompileFailed { path, source }) => {
            assert_eq!(path, "docs/resume.tex");
            assert_eq!(source, "bad");
        }
        other => panic!("unexpected {other:?}"),
    }
    match tex_compile_result(&input, true, "", "", false) {
        Err(TexCompileError::OutputMissing { path }) => assert_eq!(path, "docs/.paperview/tex/resume.pdf"),
        other => panic!("unexpected {other:?}"),
    }
    let artifact = tex_compile_result(&input, true, "done", "", true).expect("artifact");
    assert_eq!(artifact.output_path(), "docs/.paperview/tex/resume.pdf");
    assert_eq!(artifact.diagnostics(), "done");
}
