//! Validation of WGSL shader sources with naga, turning naga's errors into
//! diagnostics with labelled source spans.
use vstd::prelude::*;
use naga::front::wgsl::parse_str;
use naga::valid::{Capabilities, ValidationFlags, Validator};

verus! {

/// A source span of a naga diagnostic: a byte range of the source (absent
/// where naga has no position for it) and its label.
pub struct RawSpan {
    pub range: Option<(usize, usize)>,
    pub label: String,
}

/// A naga diagnostic: its message and its labelled spans, the primary one first.
pub struct RawDiagnostic {
    pub message: String,
    pub spans: Vec<RawSpan>,
}

impl RawDiagnostic {
    /// The diagnostic as plain values.
    pub open spec fn plain(&self) -> (Seq<char>, Seq<(Option<(usize, usize)>, Seq<char>)>) {
        (self.message@, self.spans@.map_values(|s: RawSpan| (s.range, s.label@)))
    }
}

/// What naga's WGSL front end (`naga::front::wgsl::parse_str`) reports for a
/// source: `None` when it parses, otherwise its diagnostic as plain values.
pub uninterp spec fn wgsl_parse_outcome(source: Seq<char>) -> Option<(Seq<char>, Seq<(Option<(usize, usize)>, Seq<char>)>)>;

/// What naga's validator (`naga::valid::Validator`, all validation flags and
/// all capabilities) reports for the module that the front end parses from a
/// source: `None` when it passes, otherwise its diagnostic as plain values.
/// It is read only for sources that parse.
pub uninterp spec fn wgsl_validation_outcome(source: Seq<char>) -> Option<(Seq<char>, Seq<(Option<(usize, usize)>, Seq<char>)>)>;

/// Parse a WGSL source with `naga::front::wgsl::parse_str` and validate the
/// module with `naga::valid::Validator` (all flags, all capabilities).
///
/// Trusted: both outcomes depend on the source text alone. A parse error is
/// handed back as the message and labelled spans of naga's `ParseError`; a
/// validation error as its `Display` text and its labelled spans; each span
/// as the byte range of `Span::to_range`.
#[verifier::external_body]
fn check_source(source: &str) -> (res: Result<(), RawDiagnostic>)
    ensures
        match wgsl_parse_outcome(source@) {
            Some(d) => res matches Err(e) && e.plain() == d,
            None => match wgsl_validation_outcome(source@) {
                Some(d) => res matches Err(e) && e.plain() == d,
                None => res is Ok,
            },
        },
{
    let module = parse_str(source).map_err(|e| RawDiagnostic {
        message: e.message().to_owned(),
        spans: e.labels().map(|(span, label)| RawSpan { range: span.to_range().map(|r| (r.start, r.end)), label: label.to_owned() }).collect(),
    })?;
    Validator::new(ValidationFlags::all(), Capabilities::all()).validate(&module).map(|_| ()).map_err(|e| RawDiagnostic {
        message: e.to_string(),
        spans: e.spans().map(|(span, label)| RawSpan { range: span.to_range().map(|r| (r.start, r.end)), label: label.to_owned() }).collect(),
    })
}

/// A labelled span of a shader source: `len` bytes from byte `start`.
pub struct SourceLabel {
    pub start: usize,
    pub len: usize,
    pub text: String,
}

/// A WGSL compilation or validation error with the source it refers to.
pub struct WgslError {
    pub message: String,
    pub filename: String,
    pub source: String,
    pub labels: Vec<SourceLabel>,
}

/// The label of a span: a byte range `start..end` covers `end - start` bytes
/// (none if it is reversed); a span without position becomes the empty span at 0.
pub open spec fn span_label(range: Option<(usize, usize)>) -> (usize, usize) {
    match range {
        Some((start, end)) => (start, if end > start { (end - start) as usize } else { 0 }),
        None => (0, 0),
    }
}

impl WgslError {
    /// The error as plain values: message, file name, source and labels.
    pub open spec fn plain(&self) -> (Seq<char>, Seq<char>, Seq<char>, Seq<(usize, usize, Seq<char>)>) {
        (
            self.message@,
            self.filename@,
            self.source@,
            self.labels@.map_values(|l: SourceLabel| (l.start, l.len, l.text@)),
        )
    }
}

/// The error that a naga diagnostic on `source` (read from `filename`) becomes.
pub open spec fn error_of(
    filename: Seq<char>,
    source: Seq<char>,
    diag: (Seq<char>, Seq<(Option<(usize, usize)>, Seq<char>)>),
) -> (Seq<char>, Seq<char>, Seq<char>, Seq<(usize, usize, Seq<char>)>) {
    (
        diag.0,
        filename,
        source,
        diag.1.map_values(|s: (Option<(usize, usize)>, Seq<char>)| (span_label(s.0).0, span_label(s.0).1, s.1)),
    )
}

/// Turn a naga diagnostic on `source` into a [`WgslError`]: the message
/// stays, every span becomes a label by [`span_label`].
pub fn diagnostic_to_error(filename: &str, source: &str, diag: RawDiagnostic) -> (e: WgslError)
    ensures
        e.plain() == error_of(filename@, source@, diag.plain()),
{
    let ghost spans_plain = diag.plain().1;
    let RawDiagnostic { message, spans } = diag;
    let mut labels: Vec<SourceLabel> = Vec::new();
    let mut i: usize = 0;
    while i < spans.len()
        invariant
            i <= spans.len(),
            spans_plain == spans@.map_values(|s: RawSpan| (s.range, s.label@)),
            labels@.map_values(|l: SourceLabel| (l.start, l.len, l.text@)) == spans_plain.take(i as int).map_values(
                |s: (Option<(usize, usize)>, Seq<char>)| (span_label(s.0).0, span_label(s.0).1, s.1),
            ),
        decreases spans.len() - i,
    {
        let span = &spans[i];
        let (start, len) = match span.range {
            Some((s, e)) => (s, if e > s { e - s } else { 0 }),
            None => (0, 0),
        };
        let ghost before = labels@;
        labels.push(SourceLabel { start, len, text: span.label.clone() });
        proof {
            assert(spans_plain.take(i + 1) =~= spans_plain.take(i as int).push(spans_plain[i as int]));
            assert(labels@.map_values(|l: SourceLabel| (l.start, l.len, l.text@)) =~= before.map_values(
                |l: SourceLabel| (l.start, l.len, l.text@),
            ).push((start, len, span.label@)));
        }
        i += 1;
    }
    proof {
        assert(spans_plain.take(spans.len() as int) =~= spans_plain);
    }
    WgslError { message, filename: filename.to_owned(), source: source.to_owned(), labels }
}

/// Parse and validate a WGSL source with naga. A parse error becomes the
/// [`WgslError`] of naga's diagnostic; a parsed module is then validated and a
/// validation error becomes the [`WgslError`] of the validator's diagnostic;
/// a source that parses and validates is accepted.
pub fn validate_wgsl(filename: &str, source: &str) -> (res: Result<(), WgslError>)
    ensures
        match wgsl_parse_outcome(source@) {
            Some(diag) => res matches Err(e) && e.plain() == error_of(filename@, source@, diag),
            None => match wgsl_validation_outcome(source@) {
                Some(diag) => res matches Err(e) && e.plain() == error_of(filename@, source@, diag),
                None => res is Ok,
            },
        },
{
    match check_source(source) {
        Ok(()) => Ok(()),
        Err(diag) => Err(diagnostic_to_error(filename, source, diag)),
    }
}

/// The shaders of the viewer, each in a file of its own.
#[derive(Clone, Copy, Debug, PartialEq, Eq, Structural)]
pub enum ShaderKind {
    /// `shader.wgsl`: textured, lit bodies.
    Main,
    /// `grid.wgsl`: unlit grid and arrow lines.
    Grid,
    /// `normals.wgsl`: normal-vector overlay.
    Normals,
}

/// Which shader a changed file name belongs to, if any.
pub fn shader_for_file(file_name: &str) -> (kind: Option<ShaderKind>)
    ensures
        kind == (if file_name@ == "shader.wgsl"@ {
            Some(ShaderKind::Main)
        } else if file_name@ == "grid.wgsl"@ {
            Some(ShaderKind::Grid)
        } else if file_name@ == "normals.wgsl"@ {
            Some(ShaderKind::Normals)
        } else {
            None
        }),
{
    let name = file_name.to_owned();
    if name == "shader.wgsl".to_owned() {
        Some(ShaderKind::Main)
    } else if name == "grid.wgsl".to_owned() {
        Some(ShaderKind::Grid)
    } else if name == "normals.wgsl".to_owned() {
        Some(ShaderKind::Normals)
    } else {
        None
    }
}

/// The shaders that a batch of changed files asks to reload.
#[derive(Clone, Copy, Debug, PartialEq, Eq, Structural)]
pub struct ShaderReloads {
    pub main: bool,
    pub grid: bool,
    pub normals: bool,
}

/// Some name of the batch is `name`.
pub open spec fn batch_names(file_names: Seq<String>, name: Seq<char>) -> bool {
    exists|i: int| 0 <= i < file_names.len() && #[trigger] file_names[i]@ == name
}

/// Collects the file names of one batch of change notifications: a shader is
/// reloaded once however often its file changed, and other files are ignored.
pub fn reloads_for(file_names: &Vec<String>) -> (r: ShaderReloads)
    ensures
        r.main == batch_names(file_names@, "shader.wgsl"@),
        r.grid == batch_names(file_names@, "grid.wgsl"@),
        r.normals == batch_names(file_names@, "normals.wgsl"@),
{
    let mut r = ShaderReloads { main: false, grid: false, normals: false };
    let mut i: usize = 0;
    while i < file_names.len()
        invariant
            i <= file_names.len(),
            r.main == batch_names(file_names@.take(i as int), "shader.wgsl"@),
            r.grid == batch_names(file_names@.take(i as int), "grid.wgsl"@),
            r.normals == batch_names(file_names@.take(i as int), "normals.wgsl"@),
        decreases file_names.len() - i,
    {
        let ghost before = file_names@.take(i as int);
        let ghost after = file_names@.take(i + 1);
        let ghost name = file_names@[i as int]@;
        match shader_for_file(file_names[i].as_str()) {
            Some(ShaderKind::Main) => r.main = true,
            Some(ShaderKind::Grid) => r.grid = true,
            Some(ShaderKind::Normals) => r.normals = true,
            None => {},
        }
        proof {
            assert forall|n: Seq<char>| batch_names(after, n) == (batch_names(before, n) || name == n) by {
                if batch_names(after, n) {
                    let j = choose|j: int| 0 <= j < after.len() && #[trigger] after[j]@ == n;
                    if j < i {
                        assert(before[j] == after[j]);
                    }
                }
                if batch_names(before, n) {
                    let j = choose|j: int| 0 <= j < before.len() && #[trigger] before[j]@ == n;
                    assert(after[j] == before[j]);
                }
                if name == n {
                    assert(after[i as int]@ == n);
                }
            }
            reveal_strlit("shader.wgsl");
            reveal_strlit("grid.wgsl");
            reveal_strlit("normals.wgsl");
            assert("shader.wgsl"@.len() != "grid.wgsl"@.len());
            assert("shader.wgsl"@.len() != "normals.wgsl"@.len());
            assert("grid.wgsl"@.len() != "normals.wgsl"@.len());
        }
        i = i + 1;
    }
    assert(file_names@.take(file_names.len() as int) =~= file_names@);
    r
}

} // verus!
