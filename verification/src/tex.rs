use vstd::prelude::*;

use crate::paths::{
    file_name, join, parent, path_file_name, path_join, path_parent, path_with_extension,
    with_extension,
};
use crate::text::{push_str, trim, trim_str, TextSource};

verus! {

/// Where a compiled PDF for `entry` goes: `.paperview/tex/<name>.pdf` beside
/// the entry file, or under the working directory when it has no directory.
pub open spec fn tex_artifact_path_of(entry: Seq<char>) -> Seq<char> {
    let name = match path_file_name(entry) {
        Some(n) => n,
        None => entry,
    };
    let artifact = path_with_extension(name, "pdf"@);
    match path_parent(entry) {
        Some(dir) => if dir.len() > 0 {
            path_join(path_join(path_join(dir, ".paperview"@), "tex"@), artifact)
        } else {
            path_join(path_join(".paperview"@, "tex"@), artifact)
        },
        None => path_join(path_join(".paperview"@, "tex"@), artifact),
    }
}

proof fn lemma_pdf_has_no_separator()
    ensures
        crate::paths::has_no_separator("pdf"@),
{
    reveal_strlit("pdf");
    assert("pdf"@ =~= seq!['p', 'd', 'f']);
}

/// The managed PDF path for a TeX entry file.
pub fn tex_pdf_artifact_path(entry_path: &str) -> (r: String)
    ensures
        r@ == tex_artifact_path_of(entry_path@),
{
    let name = match file_name(entry_path) {
        Some(n) => n,
        None => entry_path.to_owned(),
    };
    proof {
        lemma_pdf_has_no_separator();
    }
    let artifact = with_extension(name.as_str(), "pdf");
    let base = match parent(entry_path) {
        Some(dir) => {
            if dir.as_str().is_empty() {
                join(".paperview", "tex")
            } else {
                let hidden = join(dir.as_str(), ".paperview");
                join(hidden.as_str(), "tex")
            }
        },
        None => join(".paperview", "tex"),
    };
    join(base.as_str(), artifact.as_str())
}

/// What to compile: the TeX entry file, the PDF to produce, and the
/// Tectonic executable.
#[derive(Debug, Clone, PartialEq, Eq)]
pub struct TexCompileInput {
    entry_path: String,
    output_path: String,
    compiler_path: String,
}

impl View for TexCompileInput {
    type V = (Seq<char>, Seq<char>, Seq<char>);

    closed spec fn view(&self) -> (Seq<char>, Seq<char>, Seq<char>) {
        (self.entry_path@, self.output_path@, self.compiler_path@)
    }
}

impl TexCompileInput {
    /// Compiling `entry_path` to its managed PDF path with `tectonic`.
    pub fn new<P: TextSource>(entry_path: P) -> (r: TexCompileInput)
        ensures
            r@ == (entry_path.text_of(), tex_artifact_path_of(entry_path.text_of()), "tectonic"@),
    {
        let entry_path = entry_path.into_string();
        let output_path = tex_pdf_artifact_path(entry_path.as_str());
        TexCompileInput { entry_path, output_path, compiler_path: "tectonic".to_owned() }
    }

    /// The same, writing the PDF to `output_path`.
    pub fn with_output_path<P: TextSource>(self, output_path: P) -> (r: TexCompileInput)
        ensures
            r@ == (self@.0, output_path.text_of(), self@.2),
    {
        TexCompileInput { output_path: output_path.into_string(), ..self }
    }

    /// The same, running the compiler at `compiler_path`.
    pub fn with_compiler_path<P: TextSource>(self, compiler_path: P) -> (r: TexCompileInput)
        ensures
            r@ == (self@.0, self@.1, compiler_path.text_of()),
    {
        TexCompileInput { compiler_path: compiler_path.into_string(), ..self }
    }

    /// The TeX entry file.
    pub fn entry_path(&self) -> (r: &str)
        ensures
            r@ == self@.0,
    {
        self.entry_path.as_str()
    }

    /// The PDF to produce.
    pub fn output_path(&self) -> (r: &str)
        ensures
            r@ == self@.1,
    {
        self.output_path.as_str()
    }

    /// The compiler to run.
    pub fn compiler_path(&self) -> (r: &str)
        ensures
            r@ == self@.2,
    {
        self.compiler_path.as_str()
    }
}

/// A compiled PDF and what the compiler said.
#[derive(Debug, Clone, PartialEq, Eq)]
pub struct TexCompileArtifact {
    output_path: String,
    diagnostics: String,
}

impl View for TexCompileArtifact {
    type V = (Seq<char>, Seq<char>);

    closed spec fn view(&self) -> (Seq<char>, Seq<char>) {
        (self.output_path@, self.diagnostics@)
    }
}

impl TexCompileArtifact {
    /// The PDF at `output_path`, with the compiler's `diagnostics`.
    pub fn new<P: TextSource, D: TextSource>(output_path: P, diagnostics: D) -> (r: TexCompileArtifact)
        ensures
            r@ == (output_path.text_of(), diagnostics.text_of()),
    {
        TexCompileArtifact {
            output_path: output_path.into_string(),
            diagnostics: diagnostics.into_string(),
        }
    }

    /// The PDF.
    pub fn output_path(&self) -> (r: &str)
        ensures
            r@ == self@.0,
    {
        self.output_path.as_str()
    }

    /// What the compiler said.
    pub fn diagnostics(&self) -> (r: &str)
        ensures
            r@ == self@.1,
    {
        self.diagnostics.as_str()
    }
}

/// Why a TeX compile failed.
#[derive(Debug, Clone, PartialEq, Eq)]
pub enum TexCompileError {
    CompilerUnavailable { compiler_path: String, source: String },
    CompileFailed { path: String, source: String },
    OutputMissing { path: String },
    WriteFailed { path: String, source: String },
}

impl TexCompileError {
    /// The error as one line of text.
    pub fn message(&self) -> (r: String)
        ensures
            r@ == match self {
                TexCompileError::CompilerUnavailable { compiler_path, source } => "failed to run Tectonic compiler "@
                    + compiler_path@ + ": "@ + source@,
                TexCompileError::CompileFailed { path, source } => "failed to compile "@ + path@
                    + " with Tectonic: "@ + source@,
                TexCompileError::OutputMissing { path } => "Tectonic did not produce "@ + path@,
                TexCompileError::WriteFailed { path, source } => "failed to write "@ + path@ + ": "@
                    + source@,
            },
    {
        let mut out = String::new();
        match self {
            TexCompileError::CompilerUnavailable { compiler_path, source } => {
                push_str(&mut out, "failed to run Tectonic compiler ");
                push_str(&mut out, compiler_path.as_str());
                push_str(&mut out, ": ");
                push_str(&mut out, source.as_str());
            },
            TexCompileError::CompileFailed { path, source } => {
                push_str(&mut out, "failed to compile ");
                push_str(&mut out, path.as_str());
                push_str(&mut out, " with Tectonic: ");
                push_str(&mut out, source.as_str());
            },
            TexCompileError::OutputMissing { path } => {
                push_str(&mut out, "Tectonic did not produce ");
                push_str(&mut out, path.as_str());
            },
            TexCompileError::WriteFailed { path, source } => {
                push_str(&mut out, "failed to write ");
                push_str(&mut out, path.as_str());
                push_str(&mut out, ": ");
                push_str(&mut out, source.as_str());
            },
        }
        out
    }
}

/// The directory the compiler writes into: the output file's directory, or
/// the working directory when it has none.
pub open spec fn tex_output_dir_of(output_path: Seq<char>) -> Seq<char> {
    match path_parent(output_path) {
        Some(dir) => if dir.len() > 0 {
            dir
        } else {
            "."@
        },
        None => "."@,
    }
}

/// The directory the compiler writes into.
pub fn tex_output_dir(output_path: &str) -> (r: String)
    ensures
        r@ == tex_output_dir_of(output_path@),
{
    match parent(output_path) {
        Some(dir) => {
            if dir.as_str().is_empty() {
                ".".to_owned()
            } else {
                dir
            }
        },
        None => ".".to_owned(),
    }
}

/// The name of the PDF that Tectonic writes for `entry`: its file name with
/// a `.pdf` extension.
pub open spec fn tectonic_pdf_name_of(entry: Seq<char>) -> Seq<char> {
    match path_file_name(entry) {
        Some(name) => path_with_extension(name, "pdf"@),
        None => path_with_extension(entry, "pdf"@),
    }
}

/// The name of the PDF that Tectonic writes for `entry_path`.
pub fn tectonic_generated_pdf_name(entry_path: &str) -> (r: String)
    ensures
        r@ == tectonic_pdf_name_of(entry_path@),
{
    proof {
        lemma_pdf_has_no_separator();
    }
    match file_name(entry_path) {
        Some(name) => with_extension(name.as_str(), "pdf"),
        None => with_extension(entry_path, "pdf"),
    }
}

/// The compiler's report: its trimmed output and trimmed errors, the
/// non-empty ones joined by a newline, or a plain note when both are empty.
pub open spec fn tectonic_diagnostics_of(stdout: Seq<char>, stderr: Seq<char>) -> Seq<char> {
    let out = trim(stdout);
    let err = trim(stderr);
    if out.len() == 0 && err.len() == 0 {
        "compiled with Tectonic"@
    } else if out.len() == 0 {
        err
    } else if err.len() == 0 {
        out
    } else {
        out + seq!['\n'] + err
    }
}

/// The compiler's report, from what it wrote to its two streams.
pub fn tectonic_diagnostics(stdout: &str, stderr: &str) -> (r: String)
    ensures
        r@ == tectonic_diagnostics_of(stdout@, stderr@),
{
    let out = trim_str(stdout);
    let err = trim_str(stderr);
    proof {
        broadcast use vstd::string::group_string_axioms;
    }
    if out.as_str().is_empty() && err.as_str().is_empty() {
        return "compiled with Tectonic".to_owned();
    }
    if out.as_str().is_empty() {
        return err;
    }
    if err.as_str().is_empty() {
        return out;
    }
    let mut joined = out;
    joined.push('\n');
    push_str(&mut joined, err.as_str());
    joined
}


/// Where the compiler leaves its PDF for an input: the output directory and
/// the entry's name with a `.pdf` extension.
pub open spec fn generated_pdf_path_of(input: (Seq<char>, Seq<char>, Seq<char>)) -> Seq<char> {
    path_join(tex_output_dir_of(input.1), tectonic_pdf_name_of(input.0))
}

/// Where the compiler leaves its PDF for an input.
pub fn generated_pdf_path(input: &TexCompileInput) -> (r: String)
    ensures
        r@ == generated_pdf_path_of(input@),
{
    let dir = tex_output_dir(input.output_path());
    let name = tectonic_generated_pdf_name(input.entry_path());
    join(dir.as_str(), name.as_str())
}

/// Whether the compiler's PDF must be moved to the input's output path.
pub fn generated_pdf_needs_move(input: &TexCompileInput) -> (r: bool)
    ensures
        r == !crate::paths::path_eq(generated_pdf_path_of(input@), input@.1),
{
    let generated = generated_pdf_path(input);
    !crate::paths::same_path(generated.as_str(), input.output_path())
}

/// What a finished compile means, from the compiler's exit, its two output
/// streams, and whether its PDF is where it should be.
pub fn tex_compile_result(
    input: &TexCompileInput,
    success: bool,
    stdout: &str,
    stderr: &str,
    generated_exists: bool,
) -> (r: Result<TexCompileArtifact, TexCompileError>)
    ensures
        !success ==> (r matches Err(TexCompileError::CompileFailed { path, source }) && path@ == input@.0 && source@
            == tectonic_diagnostics_of(stdout@, stderr@)),
        success && !generated_exists ==> (r matches Err(TexCompileError::OutputMissing { path }) && path@
            == generated_pdf_path_of(input@)),
        success && generated_exists ==> (r matches Ok(a) && a@ == (input@.1, tectonic_diagnostics_of(stdout@, stderr@))),
{
    let diagnostics = tectonic_diagnostics(stdout, stderr);
    if !success {
        return Err(TexCompileError::CompileFailed { path: input.entry_path().to_owned(), source: diagnostics });
    }
    if !generated_exists {
        return Err(TexCompileError::OutputMissing { path: generated_pdf_path(input) });
    }
    Ok(TexCompileArtifact::new(input.output_path().to_owned(), diagnostics))
}

} // verus!
