//! Editor-side shader validation: the shader is compiled together with the
//! uniform header the preview pipeline prepends, and parse diagnostics keep
//! their byte ranges so the editor can overlay them.

use vstd::prelude::*;
use vstd::string::StringExecFns;

use crate::wgsl::parse_wgsl;
use crate::wgsl::validate_module;
use crate::wgsl::wgsl_parse_ok;

verus! {

/// Why a shader was rejected: it did not parse — with the parser's message
/// and its labeled byte ranges into the compiled source — or it parsed and
/// the validator refused it.
#[derive(Debug)]
pub enum Error {
    Parse { message: String, errors: Vec<((usize, usize), String)> },
    Validation(String),
}

/// Where the editor's validation stands: validated, in flight, rejected
/// (with the diagnostics), or stale.
#[derive(Debug)]
pub enum Status {
    Validated,
    Validating,
    Invalid(Error),
    NeedsValidation,
}

impl Default for Status {
    /// A fresh editor counts as validated.
    fn default() -> (r: Status)
        ensures
            r is Validated,
    {
        Status::Validated
    }
}

impl Status {
    /// The icon glyph for the status, from the application's icon font: a
    /// check for validated, a cross for invalid, an hourglass otherwise.
    pub fn icon_char(&self) -> (c: char)
        ensures
            c == match self {
                Status::Validated => '\u{e801}',
                Status::Invalid(_) => '\u{e802}',
                Status::Validating => '\u{e803}',
                Status::NeedsValidation => '\u{e803}',
            },
    {
        match self {
            Status::Validated => '\u{e801}',
            Status::Invalid(_) => '\u{e802}',
            Status::Validating => '\u{e803}',
            Status::NeedsValidation => '\u{e803}',
        }
    }

    /// The byte ranges of the parse errors this status carries, for the
    /// highlighter's error overlay: empty unless the shader failed to parse.
    pub fn error_ranges(&self) -> (r: Vec<(usize, usize)>)
        ensures
            match self {
                Status::Invalid(Error::Parse { errors, .. }) => r@ == errors@.map(
                    |i: int, p: ((usize, usize), String)| p.0,
                ),
                _ => r@ == Seq::<(usize, usize)>::empty(),
            },
    {
        match self {
            Status::Invalid(Error::Parse { errors, .. }) => {
                let mut out: Vec<(usize, usize)> = Vec::new();
                let mut i: usize = 0;
                while i < errors.len()
                    invariant
                        i <= errors@.len(),
                        out@ == errors@.subrange(0, i as int).map(
                            |j: int, p: ((usize, usize), String)| p.0,
                        ),
                    decreases errors@.len() - i,
                {
                    out.push(errors[i].0);
                    i = i + 1;
                    proof {
                        assert(out@ =~= errors@.subrange(0, i as int).map(
                            |j: int, p: ((usize, usize), String)| p.0,
                        ));
                    }
                }
                proof {
                    assert(errors@.subrange(0, errors@.len() as int) =~= errors@);
                    assert(out@ =~= errors@.map(|j: int, p: ((usize, usize), String)| p.0));
                }
                out
            },
            _ => {
                let out: Vec<(usize, usize)> = Vec::new();
                proof {
                    assert(out@ =~= Seq::<(usize, usize)>::empty());
                }
                out
            },
        }
    }

    /// The status line text shown in the tooltip.
    pub fn label(&self) -> (r: String)
        ensures
            r@ == match self {
                Status::Validated => "Shader is valid"@,
                Status::Validating => "Shader is being validated"@,
                Status::Invalid(_) => "Shader is invalid!"@,
                Status::NeedsValidation => "Shader needs validation!"@,
            },
    {
        match self {
            Status::Validated => "Shader is valid".to_owned(),
            Status::Validating => "Shader is being validated".to_owned(),
            Status::Invalid(_) => "Shader is invalid!".to_owned(),
            Status::NeedsValidation => "Shader needs validation!".to_owned(),
        }
    }
}

/// Validates a fragment shader as the preview compiles it: the uniform
/// header, a newline, then the shader. Returns the shader back on success.
/// Fails with `Error::Parse` — carrying the parser's message and its labeled
/// byte ranges — exactly when the combined source does not parse; a source
/// that parses gets `Ok` or `Error::Validation` as the validator decides.
pub fn validate(header: &str, shader: &String) -> (r: Result<String, Error>)
    ensures
        ({
            let full = header@ + seq!['\n'] + shader@;
            match r {
                Ok(out) => out@ == shader@ && wgsl_parse_ok(full),
                Err(e) => match e {
                    Error::Parse { .. } => !wgsl_parse_ok(full),
                    Error::Validation(_) => wgsl_parse_ok(full),
                },
            }
        }),
{
    let mut full = String::new();
    full.append(header);
    full.append("\n");
    full.append(shader.as_str());
    proof {
        reveal_strlit("\n");
        assert("\n"@ =~= seq!['\n']);
        assert(full@ == header@ + seq!['\n'] + shader@);
    }
    let module = match parse_wgsl(full.as_str()) {
        Ok(m) => m,
        Err((message, labels)) => {
            let mut errors: Vec<((usize, usize), String)> = Vec::new();
            let mut i: usize = 0;
            while i < labels.len()
                decreases labels@.len() - i,
            {
                match &labels[i].0 {
                    Some(range) => {
                        errors.push((*range, labels[i].1.clone()));
                    },
                    None => {},
                }
                i = i + 1;
            }
            return Err(Error::Parse { message, errors });
        },
    };
    match validate_module(&module) {
        Ok(()) => Ok(shader.clone()),
        Err(text) => Err(Error::Validation(text)),
    }
}

} // verus!
