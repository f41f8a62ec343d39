use astronomore::shader::{
    diagnostic_to_error, reloads_for, shader_for_file, validate_wgsl, RawDiagnostic, RawSpan, ShaderKind,
    ShaderReloads,
};

const VALID: &str = "
@vertex
fn vs_main(@builtin(vertex_index) i: u32) -> @builtin(position) vec4<f32> {
    return vec4<f32>(f32(i), 0.0, 0.0, 1.0);
}
";

#[test]
fn valid_shader_passes() {
    assert!(validate_wgsl("ok.wgsl", VALID).is_ok());
}

#[test]
fn syntax_error_is_reported_with_source() {
    let src = "fn main( {";
    let err = validate_wgsl("bad.wgsl", src).unwrap_err();
    assert_eq!(err.filename, "bad.wgsl");
    assert_eq!(err.source, src);
    assert!(!err.message.is_empty());
    assert!(!err.labels.is_empty());
    for l in &err.labels {
        assert!(l.start + l.len <= src.len());
    }
}

#[test]
fn type_error_is_reported_by_validation_or_parse() {
    let src = "fn f() -> u32 { return 1.5; }";
    let err = validate_wgsl("types.wgsl", src).unwrap_err();
    assert_eq!(err.filename, "types.wgsl");
    assert!(!err.message.is_empty());
}

#[test]
fn diagnostic_spans_become_labels() {
    let diag = RawDiagnostic {
        message: "expected `)`".to_string(),
        spans: vec![
            RawSpan { range: Some((3, 7)), label: "here".to_string() },
            RawSpan { range: Some((9, 2)), label: "reversed".to_string() },
            RawSpan { range: None, label: "nowhere".to_string() },
        ],
    };
    let e = diagnostic_to_error("f.wgsl", "source text", diag);
    assert_eq!(e.message, "expected `)`");
    assert_eq!(e.filename, "f.wgsl");
    assert_eq!(e.source, "source text");
    let labels: Vec<(usize, usize, &str)> = e.labels.iter().map(|l| (l.start, l.len, l.text.as_str())).collect();
    assert_eq!(labels, vec![(3, 4, "here"), (9, 0, "reversed"), (0, 0, "nowhere")]);
}

#[test]
fn shader_files() {
    assert_eq!(shader_for_file("shader.wgsl"), Some(ShaderKind::Main));
    assert_eq!(shader_for_file("grid.wgsl"), Some(ShaderKind::Grid));
    assert_eq!(shader_for_file("normals.wgsl"), Some(ShaderKind::Normals));
    assert_eq!(shader_for_file("shader.wgsl~"), None);
}

#[test]
fn batch_of_changes_reloads_each_shader_once() {
    let names: Vec<String> = ["grid.wgsl", "notes.txt", "grid.wgsl", "normals.wgsl"]
        .iter()
        .map(|s| s.to_string())
        .collect();
    assert_eq!(
        reloads_for(&names),
        ShaderReloads { main: false, grid: true, normals: true }
    );
}

#[test]
fn empty_batch_reloads_nothing() {
    assert_eq!(
        reloads_for(&Vec::new()),
        ShaderReloads { main: false, grid: false, normals: false }
    );
    let names = vec!["shader.wgsl".to_string()];
    assert_eq!(
        reloads_for(&names),
        ShaderReloads { main: true, grid: false, normals: false }
    );
}

#[test]
fn empty_source_is_accepted() {
    assert!(validate_wgsl("a.wgsl", "").is_ok());
}

#[test]
fn lone_keyword_is_rejected() {
    let err = validate_wgsl("a.wgsl", "fn").unwrap_err();
    assert_eq!(err.filename, "a.wgsl");
    assert_eq!(err.source, "fn");
    assert!(!err.message.is_empty());
}

#[test]
fn invalid_module_is_rejected_with_source() {
    let src = "@compute @workgroup_size(1)\nfn main() {\n    let x: i32 = 1 / 0;\n}\n";
    let err = validate_wgsl("div.wgsl", src).unwrap_err();
    assert_eq!(err.filename, "div.wgsl");
    assert_eq!(err.source, src);
    assert!(!err.message.is_empty());
}
