//! The editor's state machine and shortcut table, plus the theme, viewer and
//! preferences models.

use halo::editor::validation::Status;
use halo::editor::{Cmd, Editor, Event, Key, Message, Modifiers};
use halo::preferences::Preferences;
use halo::theme::{dim, Container, Palette, Rgb, Text, Theme};
use halo::viewer::Viewer;

fn editor() -> Editor {
    let mut e = Editor::new("empty template".to_string());
    e.is_loading = false;
    e
}

fn no_mods() -> Modifiers {
    Modifiers { control: false, command: false }
}

fn command() -> Modifiers {
    Modifiers { control: false, command: true }
}

#[test]
fn fresh_editor_state() {
    let e = Editor::new("tpl".to_string());
    assert!(e.shader_path.is_none());
    assert!(matches!(e.validation_status, Status::Validated));
    assert!(e.auto_validate);
    assert!(e.is_loading);
    assert_eq!(e.empty_shader, "tpl");
}

#[test]
fn keypress_table() {
    let e = editor();
    let ctrl = Modifiers { control: true, command: false };
    assert!(matches!(e.keypress(Key::Enter, ctrl), Some(Message::Validate)));
    assert!(e.keypress(Key::Enter, no_mods()).is_none());
    assert!(matches!(e.keypress(Key::S, command()), Some(Message::Save)));
    assert!(matches!(e.keypress(Key::Z, command()), Some(Message::Undo)));
    assert!(matches!(e.keypress(Key::Y, command()), Some(Message::Redo)));
    assert!(matches!(e.keypress(Key::F, command()), Some(Message::Search)));
    assert!(matches!(e.keypress(Key::Tab, no_mods()), Some(Message::Indent)));
    assert!(e.keypress(Key::S, no_mods()).is_none());
    assert!(e.keypress(Key::Other, command()).is_none());
}

#[test]
fn validate_message_starts_validation() {
    let mut e = editor();
    let text = "fn f() {}".to_string();
    let out = e.update(Message::Validate, &text);
    assert!(matches!(e.validation_status, Status::Validating));
    assert!(matches!(out.event, Event::Idle));
    assert!(matches!(out.command, Cmd::Validate(ref s) if s == &text));
    assert!(out.content.is_none());
}

#[test]
fn edit_with_auto_validate_revalidates() {
    let mut e = editor();
    let text = "edited".to_string();
    let out = e.update(Message::Action { is_edit: true }, &text);
    assert!(matches!(e.validation_status, Status::Validating));
    assert!(matches!(out.command, Cmd::Validate(ref s) if s == &text));

    let mut quiet = editor();
    quiet.auto_validate = false;
    let out2 = quiet.update(Message::Action { is_edit: true }, &text);
    assert!(matches!(out2.command, Cmd::Nothing));
    let out3 = e.update(Message::Action { is_edit: false }, &text);
    assert!(matches!(out3.command, Cmd::Nothing));
}

#[test]
fn validated_ok_updates_pipeline() {
    let mut e = editor();
    let text = String::new();
    let out = e.update(Message::Validated(Ok("shader!".to_string())), &text);
    assert!(matches!(e.validation_status, Status::Validated));
    assert!(matches!(out.event, Event::UpdatePipeline(ref s) if s == "shader!"));
    assert!(matches!(out.command, Cmd::Nothing));
}

#[test]
fn validated_error_marks_invalid() {
    let mut e = editor();
    let text = String::new();
    let err = halo::editor::validation::Error::Validation("bad".to_string());
    let out = e.update(Message::Validated(Err(err)), &text);
    assert!(matches!(
        e.validation_status,
        Status::Invalid(halo::editor::validation::Error::Validation(ref s)) if s == "bad"
    ));
    assert!(matches!(out.event, Event::Idle));
    assert!(matches!(out.command, Cmd::Nothing));
}

#[test]
fn new_shader_resets_path_and_pipeline() {
    let mut e = editor();
    e.shader_path = Some("/tmp/old.wgsl".to_string());
    let out = e.update(Message::New, &String::new());
    assert!(e.shader_path.is_none());
    assert!(matches!(out.event, Event::UpdatePipeline(ref s) if s == "empty template"));
    assert_eq!(out.content.as_deref(), Some("empty template"));
}

#[test]
fn open_respects_loading_flag() {
    let mut e = editor();
    let out = e.update(Message::Open, &String::new());
    assert!(e.is_loading);
    assert!(matches!(out.command, Cmd::OpenDialog));
    // A second open while one is in flight does nothing.
    let out2 = e.update(Message::Open, &String::new());
    assert!(matches!(out2.command, Cmd::Nothing));
}

#[test]
fn opened_saves_prefs_and_validates() {
    let mut e = editor();
    e.is_loading = true;
    let out = e.update(
        Message::Opened(Ok(("/tmp/a.wgsl".to_string(), "code".to_string()))),
        &String::new(),
    );
    assert!(!e.is_loading);
    assert_eq!(e.shader_path.as_deref(), Some("/tmp/a.wgsl"));
    assert_eq!(out.content.as_deref(), Some("code"));
    match out.command {
        Cmd::SavePrefsAndValidate(prefs, shader) => {
            assert_eq!(prefs.last_shader_path.as_deref(), Some("/tmp/a.wgsl"));
            assert!(prefs.auto_validate);
            assert_eq!(shader, "code");
        }
        other => panic!("unexpected command: {other:?}"),
    }

    let mut failed = editor();
    failed.is_loading = true;
    let out2 = failed.update(Message::Opened(Err(halo::editor::file::Error::OpenDialogueClosed)), &String::new());
    assert!(!failed.is_loading);
    assert!(matches!(out2.command, Cmd::Nothing));
}

#[test]
fn save_hands_out_path_and_contents() {
    let mut e = editor();
    e.shader_path = Some("/tmp/a.wgsl".to_string());
    let text = "body".to_string();
    let out = e.update(Message::Save, &text);
    assert!(matches!(
        out.command,
        Cmd::SaveFile(Some(ref p), ref s) if p == "/tmp/a.wgsl" && s == "body"
    ));

    let mut loading = editor();
    loading.is_loading = true;
    let out2 = loading.update(Message::Save, &text);
    assert!(matches!(out2.command, Cmd::Nothing));
}

#[test]
fn saved_remembers_path_and_persists_prefs() {
    let mut e = editor();
    let out = e.update(Message::Saved(Ok("/tmp/b.wgsl".to_string())), &String::new());
    assert_eq!(e.shader_path.as_deref(), Some("/tmp/b.wgsl"));
    assert!(matches!(
        out.command,
        Cmd::SavePrefs(Preferences { last_shader_path: Some(ref p), auto_validate: true })
            if p == "/tmp/b.wgsl"
    ));
    let out2 = e.update(Message::Saved(Err(halo::editor::file::Error::SaveDialogueClosed)), &String::new());
    assert!(matches!(out2.command, Cmd::SavePrefs(_)));
}

#[test]
fn init_applies_preferences() {
    let mut e = Editor::new("tpl".to_string());
    let prefs = Preferences {
        last_shader_path: Some("/tmp/last.wgsl".to_string()),
        auto_validate: false,
    };
    let out = e.update(Message::Init(Ok((prefs, "loaded".to_string()))), &String::new());
    assert!(!e.is_loading);
    assert!(!e.auto_validate);
    assert_eq!(e.shader_path.as_deref(), Some("/tmp/last.wgsl"));
    assert_eq!(out.content.as_deref(), Some("loaded"));
    assert!(matches!(out.command, Cmd::Validate(ref s) if s == "loaded"));

    let mut e2 = Editor::new("tpl".to_string());
    let out2 = e2.update(
        Message::Init(Err(halo::preferences::Error::Io)),
        &String::new(),
    );
    assert!(!e2.is_loading);
    assert!(matches!(out2.command, Cmd::Nothing));
}

#[test]
fn auto_validate_toggle_persists() {
    let mut e = editor();
    let out = e.update(Message::AutoValidate(false), &String::new());
    assert!(!e.auto_validate);
    assert!(matches!(
        out.command,
        Cmd::SavePrefs(Preferences { last_shader_path: None, auto_validate: false })
    ));
}

#[test]
fn status_error_ranges_feed_the_overlay() {
    let parse_error = halo::editor::validation::Error::Parse {
        message: "expected expression".to_string(),
        errors: vec![((4, 9), "here".to_string()), ((12, 13), "and here".to_string())],
    };
    let status = Status::Invalid(parse_error);
    assert_eq!(status.error_ranges(), vec![(4, 9), (12, 13)]);
    assert!(Status::Validated.error_ranges().is_empty());
    assert!(Status::Validating.error_ranges().is_empty());
}

#[test]
fn status_labels_and_icons() {
    assert_eq!(Status::Validated.label(), "Shader is valid");
    assert_eq!(Status::Validating.label(), "Shader is being validated");
    assert_eq!(
        Status::Invalid(halo::editor::validation::Error::Validation(String::new())).label(),
        "Shader is invalid!"
    );
    assert_eq!(Status::NeedsValidation.label(), "Shader needs validation!");
    assert_eq!(Status::Validated.icon_char(), '\u{e801}');
    assert_eq!(
        Status::Invalid(halo::editor::validation::Error::Validation(String::new())).icon_char(),
        '\u{e802}'
    );
    assert_eq!(Status::Validating.icon_char(), '\u{e803}');
    assert_eq!(Status::NeedsValidation.icon_char(), '\u{e803}');
}

#[test]
fn palette_and_dim() {
    let p = Palette::default();
    assert_eq!(p.base, Rgb { r: 84, g: 111, b: 149 });
    assert_eq!(p.background, Rgb { r: 12, g: 12, b: 30 });
    assert_eq!(p.error, Rgb { r: 255, g: 77, b: 77 });
    assert_eq!(Theme::default().palette(), p);
    assert_eq!(dim(Rgb { r: 255, g: 100, b: 0 }), Rgb { r: 178, g: 70, b: 0 });
}

#[test]
fn container_appearance_colors() {
    let t = Theme::Dark;
    let p = Palette::default();
    let tooltip = t.appearance(&Container::Tooltip);
    assert_eq!(tooltip.text_color, Some(p.text));
    assert_eq!(tooltip.background, Some(p.base_darker));
    assert_eq!(tooltip.border_color, Some(p.base_darkest));
    let error = t.appearance(&Container::Error);
    assert_eq!(error.text_color, Some(p.error));
    assert_eq!(error.border_color, Some(p.error));
    let plain = t.appearance(&Container::Plain);
    assert_eq!(plain.text_color, None);
    assert_eq!(t.text_color(&Text::Primary), p.text);
    assert_eq!(t.text_color(&Text::Error), p.error);
}

#[test]
fn viewer_versions_pipeline_updates() {
    let mut v = Viewer::new("first".to_string());
    assert_eq!(v.version, 0);
    v.update_pipeline("second".to_string());
    assert_eq!(v.last_valid_shader, "second");
    assert_eq!(v.version, 1);
}
