//! The editor's state machine: which message moves the editor to which
//! state, what content change it implies, and which outside work — a
//! validation run, a file dialog, a save — the surrounding layer is asked to
//! perform. The layer runs the work and feeds the result back as the next
//! message.

use vstd::prelude::*;

pub mod file;
pub mod validation;

use crate::editor::validation::Status;
use crate::preferences::Preferences;

verus! {

/// A message the editor reacts to: lifecycle results and user commands. The
/// payloads are the plain values the decisions read.
#[derive(Debug)]
pub enum Message {
    Init(Result<(Preferences, String), crate::preferences::Error>),
    Action { is_edit: bool },
    Validate,
    Validated(Result<String, validation::Error>),
    AutoValidate(bool),
    New,
    Open,
    Opened(Result<(String, String), file::Error>),
    Save,
    Saved(Result<String, file::Error>),
    Undo,
    Redo,
    Search,
    Indent,
    PreferencesSaved(Result<(), crate::preferences::Error>),
}

/// What an update means for the rest of the application: nothing, or a newly
/// valid shader the preview pipeline should rebuild with.
#[derive(Debug)]
pub enum Event {
    Idle,
    UpdatePipeline(String),
}

/// The outside work an update asks for: validate a shader, open the file
/// dialog, save a file, persist preferences — or persist and validate in one
/// go, as after opening a file.
#[derive(Debug)]
pub enum Cmd {
    Nothing,
    Validate(String),
    OpenDialog,
    SaveFile(Option<String>, String),
    SavePrefs(Preferences),
    SavePrefsAndValidate(Preferences, String),
}

/// Everything one update decides: the event for the preview, the command to
/// run, and the text the editor buffer should be replaced with, if any.
#[derive(Debug)]
pub struct Outcome {
    pub event: Event,
    pub command: Cmd,
    pub content: Option<String>,
}

/// The editor's state besides the text buffer itself: the path of the open
/// shader, where validation stands, whether edits re-validate automatically,
/// and whether a load is in flight.
#[derive(Debug)]
pub struct Editor {
    pub shader_path: Option<String>,
    pub validation_status: Status,
    pub auto_validate: bool,
    pub is_loading: bool,
    pub empty_shader: String,
}

/// A key the editor's shortcuts react to.
#[derive(Clone, Copy, PartialEq, Eq, Structural, Debug)]
pub enum Key {
    Enter,
    S,
    Z,
    Y,
    F,
    Tab,
    Other,
}

/// The modifier keys held with a keypress. `command` is the platform's
/// primary shortcut modifier.
#[derive(Clone, Copy, PartialEq, Eq, Structural, Debug)]
pub struct Modifiers {
    pub control: bool,
    pub command: bool,
}

/// An outcome that changes and asks for nothing.
pub open spec fn neutral_outcome() -> Outcome {
    Outcome { event: Event::Idle, command: Cmd::Nothing, content: Option::None }
}

/// Which message a keypress maps to: control-enter validates; the command
/// modifier with S, Z, Y or F saves, undoes, redoes or searches; tab
/// indents; anything else is not the editor's.
pub open spec fn spec_keypress(key: Key, modifiers: Modifiers) -> Option<Message> {
    match key {
        Key::Enter => if modifiers.control {
            Some(Message::Validate)
        } else {
            Option::None
        },
        Key::S => if modifiers.command {
            Some(Message::Save)
        } else {
            Option::None
        },
        Key::Z => if modifiers.command {
            Some(Message::Undo)
        } else {
            Option::None
        },
        Key::Y => if modifiers.command {
            Some(Message::Redo)
        } else {
            Option::None
        },
        Key::F => if modifiers.command {
            Some(Message::Search)
        } else {
            Option::None
        },
        Key::Tab => Some(Message::Indent),
        Key::Other => Option::None,
    }
}

/// What one update does, as a function of the editor's state, the message
/// and the buffer's current text: the new state and the outcome.
pub open spec fn spec_update(e: Editor, message: Message, text: String) -> (Editor, Outcome) {
    match message {
        Message::Init(res) => match res {
            Ok((prefs, shader)) => (
                Editor {
                    auto_validate: prefs.auto_validate,
                    shader_path: prefs.last_shader_path,
                    is_loading: false,
                    ..e
                },
                Outcome {
                    event: Event::Idle,
                    command: Cmd::Validate(shader),
                    content: Some(shader),
                },
            ),
            Err(_) => (Editor { is_loading: false, ..e }, neutral_outcome()),
        },
        Message::Action { is_edit } => if is_edit && e.auto_validate {
            (
                Editor { validation_status: Status::Validating, ..e },
                Outcome { event: Event::Idle, command: Cmd::Validate(text), content: Option::None },
            )
        } else {
            (e, neutral_outcome())
        },
        Message::Validate => (
            Editor { validation_status: Status::Validating, ..e },
            Outcome { event: Event::Idle, command: Cmd::Validate(text), content: Option::None },
        ),
        Message::Validated(res) => match res {
            Ok(shader) => (
                Editor { validation_status: Status::Validated, ..e },
                Outcome {
                    event: Event::UpdatePipeline(shader),
                    command: Cmd::Nothing,
                    content: Option::None,
                },
            ),
            Err(error) => (
                Editor { validation_status: Status::Invalid(error), ..e },
                neutral_outcome(),
            ),
        },
        Message::AutoValidate(checked) => (
            Editor { auto_validate: checked, ..e },
            Outcome {
                event: Event::Idle,
                command: Cmd::SavePrefs(
                    Preferences { last_shader_path: e.shader_path, auto_validate: checked },
                ),
                content: Option::None,
            },
        ),
        Message::New => (
            Editor { shader_path: Option::None, ..e },
            Outcome {
                event: Event::UpdatePipeline(e.empty_shader),
                command: Cmd::Nothing,
                content: Some(e.empty_shader),
            },
        ),
        Message::Open => if e.is_loading {
            (e, neutral_outcome())
        } else {
            (
                Editor { is_loading: true, ..e },
                Outcome { event: Event::Idle, command: Cmd::OpenDialog, content: Option::None },
            )
        },
        Message::Opened(res) => match res {
            Ok((path, shader)) => (
                Editor { shader_path: Some(path), is_loading: false, ..e },
                Outcome {
                    event: Event::Idle,
                    command: Cmd::SavePrefsAndValidate(
                        Preferences {
                            last_shader_path: Some(path),
                            auto_validate: e.auto_validate,
                        },
                        shader,
                    ),
                    content: Some(shader),
                },
            ),
            Err(_) => (Editor { is_loading: false, ..e }, neutral_outcome()),
        },
        Message::Save => if e.is_loading {
            (e, neutral_outcome())
        } else {
            (
                e,
                Outcome {
                    event: Event::Idle,
                    command: Cmd::SaveFile(e.shader_path, text),
                    content: Option::None,
                },
            )
        },
        Message::Saved(res) => match res {
            Ok(path) => (
                Editor { shader_path: Some(path), ..e },
                Outcome {
                    event: Event::Idle,
                    command: Cmd::SavePrefs(
                        Preferences {
                            last_shader_path: Some(path),
                            auto_validate: e.auto_validate,
                        },
                    ),
                    content: Option::None,
                },
            ),
            Err(_) => (
                e,
                Outcome {
                    event: Event::Idle,
                    command: Cmd::SavePrefs(
                        Preferences {
                            last_shader_path: e.shader_path,
                            auto_validate: e.auto_validate,
                        },
                    ),
                    content: Option::None,
                },
            ),
        },
        Message::Undo => (e, neutral_outcome()),
        Message::Redo => (e, neutral_outcome()),
        Message::Search => (e, neutral_outcome()),
        Message::Indent => (e, neutral_outcome()),
        Message::PreferencesSaved(_) => (e, neutral_outcome()),
    }
}

/// Copies an optional path.
fn clone_opt_string(v: &Option<String>) -> (r: Option<String>)
    ensures
        r == *v,
{
    match v {
        Some(s) => Some(s.clone()),
        None => None,
    }
}

impl Editor {
    /// A fresh editor: no file open, validated, auto-validation on, and a
    /// load in flight; `empty_shader` is the template a new shader starts
    /// from.
    pub fn new(empty_shader: String) -> (r: Editor)
        ensures
            r.shader_path is None,
            r.validation_status is Validated,
            r.auto_validate,
            r.is_loading,
            r.empty_shader == empty_shader,
    {
        Editor {
            shader_path: None,
            validation_status: Status::Validated,
            auto_validate: true,
            is_loading: true,
            empty_shader,
        }
    }

    /// Maps a keypress to the editor message it triggers, if any.
    pub fn keypress(&self, key: Key, modifiers: Modifiers) -> (r: Option<Message>)
        ensures
            r == spec_keypress(key, modifiers),
    {
        match key {
            Key::Enter => if modifiers.control {
                Some(Message::Validate)
            } else {
                None
            },
            Key::S => if modifiers.command {
                Some(Message::Save)
            } else {
                None
            },
            Key::Z => if modifiers.command {
                Some(Message::Undo)
            } else {
                None
            },
            Key::Y => if modifiers.command {
                Some(Message::Redo)
            } else {
                None
            },
            Key::F => if modifiers.command {
                Some(Message::Search)
            } else {
                None
            },
            Key::Tab => Some(Message::Indent),
            Key::Other => None,
        }
    }

    /// Applies one message: moves the editor to the state and returns the
    /// outcome that `spec_update` gives for it. `text` is the buffer's
    /// current text, after the surrounding layer has already applied the
    /// edit a `Message::Action` reports.
    pub fn update(&mut self, message: Message, text: &String) -> (r: Outcome)
        ensures
            *final(self) == spec_update(*old(self), message, *text).0,
            r == spec_update(*old(self), message, *text).1,
    {
        match message {
            Message::Init(res) => match res {
                Ok((prefs, shader)) => {
                    self.auto_validate = prefs.auto_validate;
                    self.shader_path = prefs.last_shader_path;
                    self.is_loading = false;
                    let copy = shader.clone();
                    Outcome {
                        event: Event::Idle,
                        command: Cmd::Validate(copy),
                        content: Some(shader),
                    }
                },
                Err(_) => {
                    self.is_loading = false;
                    Outcome { event: Event::Idle, command: Cmd::Nothing, content: None }
                },
            },
            Message::Action { is_edit } => {
                if is_edit && self.auto_validate {
                    self.validation_status = Status::Validating;
                    Outcome {
                        event: Event::Idle,
                        command: Cmd::Validate(text.clone()),
                        content: None,
                    }
                } else {
                    Outcome { event: Event::Idle, command: Cmd::Nothing, content: None }
                }
            },
            Message::Validate => {
                self.validation_status = Status::Validating;
                Outcome { event: Event::Idle, command: Cmd::Validate(text.clone()), content: None }
            },
            Message::Validated(res) => match res {
                Ok(shader) => {
                    self.validation_status = Status::Validated;
                    Outcome {
                        event: Event::UpdatePipeline(shader),
                        command: Cmd::Nothing,
                        content: None,
                    }
                },
                Err(error) => {
                    self.validation_status = Status::Invalid(error);
                    Outcome { event: Event::Idle, command: Cmd::Nothing, content: None }
                },
            },
            Message::AutoValidate(checked) => {
                self.auto_validate = checked;
                Outcome {
                    event: Event::Idle,
                    command: Cmd::SavePrefs(
                        Preferences {
                            last_shader_path: clone_opt_string(&self.shader_path),
                            auto_validate: checked,
                        },
                    ),
                    content: None,
                }
            },
            Message::New => {
                self.shader_path = None;
                let shader = self.empty_shader.clone();
                let copy = shader.clone();
                Outcome {
                    event: Event::UpdatePipeline(copy),
                    command: Cmd::Nothing,
                    content: Some(shader),
                }
            },
            Message::Open => {
                if self.is_loading {
                    Outcome { event: Event::Idle, command: Cmd::Nothing, content: None }
                } else {
                    self.is_loading = true;
                    Outcome { event: Event::Idle, command: Cmd::OpenDialog, content: None }
                }
            },
            Message::Opened(res) => match res {
                Ok((path, shader)) => {
                    self.shader_path = Some(path.clone());
                    self.is_loading = false;
                    let copy = shader.clone();
                    Outcome {
                        event: Event::Idle,
                        command: Cmd::SavePrefsAndValidate(
                            Preferences {
                                last_shader_path: Some(path),
                                auto_validate: self.auto_validate,
                            },
                            copy,
                        ),
                        content: Some(shader),
                    }
                },
                Err(_) => {
                    self.is_loading = false;
                    Outcome { event: Event::Idle, command: Cmd::Nothing, content: None }
                },
            },
            Message::Save => {
                if self.is_loading {
                    Outcome { event: Event::Idle, command: Cmd::Nothing, content: None }
                } else {
                    Outcome {
                        event: Event::Idle,
                        command: Cmd::SaveFile(
                            clone_opt_string(&self.shader_path),
                            text.clone(),
                        ),
                        content: None,
                    }
                }
            },
            Message::Saved(res) => match res {
                Ok(path) => {
                    self.shader_path = Some(path);
                    Outcome {
                        event: Event::Idle,
                        command: Cmd::SavePrefs(
                            Preferences {
                                last_shader_path: clone_opt_string(&self.shader_path),
                                auto_validate: self.auto_validate,
                            },
                        ),
                        content: None,
                    }
                },
                Err(_) => {
                    Outcome {
                        event: Event::Idle,
                        command: Cmd::SavePrefs(
                            Preferences {
                                last_shader_path: clone_opt_string(&self.shader_path),
                                auto_validate: self.auto_validate,
                            },
                        ),
                        content: None,
                    }
                },
            },
            Message::Undo => Outcome { event: Event::Idle, command: Cmd::Nothing, content: None },
            Message::Redo => Outcome { event: Event::Idle, command: Cmd::Nothing, content: None },
            Message::Search => Outcome { event: Event::Idle, command: Cmd::Nothing, content: None },
            Message::Indent => Outcome { event: Event::Idle, command: Cmd::Nothing, content: None },
            Message::PreferencesSaved(_) => Outcome {
                event: Event::Idle,
                command: Cmd::Nothing,
                content: None,
            },
        }
    }
}

} // verus!
