//! Shader validation through the real WGSL compiler.

use halo::editor::validation as editor_validation;
use halo::validation::{validate, Error};

#[test]
fn valid_shader_passes() {
    assert!(validate("fn helper() -> f32 { return 1.0; }").is_ok());
}

#[test]
fn garbage_fails_to_parse() {
    let r = validate("this is not wgsl at all {{{");
    assert!(matches!(r, Err(Error::Parse(_))));
}

#[test]
fn parsing_shader_can_still_fail_validation() {
    // Parses, but the workgroup grid size of 0 is rejected by the validator.
    let r = validate("@compute @workgroup_size(0) fn main() {}");
    assert!(matches!(r, Err(Error::Validation(_))));
}

#[test]
fn editor_validate_returns_shader_back() {
    let header = "fn header_helper() -> f32 { return 2.0; }";
    let shader = "fn body() -> f32 { return header_helper(); }".to_string();
    let r = editor_validation::validate(header, &shader);
    assert_eq!(r.unwrap(), shader);
}

#[test]
fn editor_validate_reports_labeled_parse_errors() {
    let header = "fn header_helper() -> f32 { return 2.0; }";
    let shader = "fn broken( -> {".to_string();
    match editor_validation::validate(header, &shader) {
        Err(editor_validation::Error::Parse { message, errors }) => {
            assert!(!message.is_empty());
            for ((start, end), _label) in &errors {
                assert!(start <= end);
            }
        }
        other => panic!("expected a parse error, got {other:?}"),
    }
}

#[test]
fn editor_validate_sees_header_and_shader_together() {
    // The shader alone would not resolve `header_value`; with the header it
    // does.
    let header = "const header_value: f32 = 3.0;";
    let shader = "fn body() -> f32 { return header_value; }".to_string();
    assert!(editor_validation::validate(header, &shader).is_ok());
    assert!(editor_validation::validate("", &shader).is_err());
}
