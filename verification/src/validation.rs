//! Whole-shader validation: parse the WGSL source, then run the validator
//! over the parsed module. Never part of highlighting; the editor calls it
//! to decide whether the preview pipeline may be rebuilt.

use vstd::prelude::*;

use crate::wgsl::parse_wgsl;
use crate::wgsl::validate_module;
use crate::wgsl::wgsl_parse_ok;

verus! {

/// Why a shader was rejected: it did not parse, or it parsed and the
/// validator refused it. Each carries rendered diagnostic text.
#[derive(Debug)]
pub enum Error {
    Parse(String),
    Validation(String),
}

/// Validates a WGSL shader. Returns `Err(Error::Parse(..))` exactly when the
/// source does not parse; a source that parses gets `Ok(())` or
/// `Err(Error::Validation(..))` as the validator decides.
pub fn validate(shader: &str) -> (r: Result<(), Error>)
    ensures
        r is Ok ==> wgsl_parse_ok(shader@),
        (r matches Err(e) && e is Parse) <==> !wgsl_parse_ok(shader@),
{
    let module = match parse_wgsl(shader) {
        Ok(m) => m,
        Err((message, _labels)) => {
            return Err(Error::Parse(message));
        },
    };
    match validate_module(&module) {
        Ok(()) => Ok(()),
        Err(text) => Err(Error::Validation(text)),
    }
}

} // verus!
