//! Trusted declarations for the WGSL compiler that validation calls. Parsing
//! and validating a whole shader is the external collaborator's work; only
//! these declarations are taken on trust, and everything around them is
//! verified.

use vstd::prelude::*;

verus! {

#[verifier::external_type_specification]
#[verifier::external_body]
pub struct ExModule(naga::Module);

/// Whether a WGSL source text parses. Parsing is a pure function of the
/// source characters; what it accepts is the WGSL grammar, named here rather
/// than restated.
pub uninterp spec fn wgsl_parse_ok(source: Seq<char>) -> bool;

/// Relies on naga::front::wgsl::parse_str: it returns `Ok` exactly when the
/// source parses as WGSL, and its parse error carries a message and labeled
/// byte spans, converted here to plain values.
#[verifier::external_body]
pub(crate) fn parse_wgsl(source: &str) -> (r: Result<
    naga::Module,
    (String, Vec<(Option<(usize, usize)>, String)>),
>)
    ensures
        r is Ok <==> wgsl_parse_ok(source@),
{
    match naga::front::wgsl::parse_str(source) {
        Ok(module) => Ok(module),
        Err(e) => {
            let labels = e.labels().map(
                |(span, msg)| (span.to_range().map(|r| (r.start, r.end)), msg.to_string()),
            ).collect();
            Err((e.message().to_string(), labels))
        },
    }
}

/// Relies on naga::valid::Validator::validate, run with the default
/// validation flags and all capabilities, as the GPU layer configures it;
/// the error is rendered to text. Whether a parsed module passes is the
/// validator's own decision, so nothing more is promised of the outcome.
#[verifier::external_body]
pub(crate) fn validate_module(module: &naga::Module) -> (r: Result<(), String>) {
    let mut validator = naga::valid::Validator::new(
        naga::valid::ValidationFlags::default(),
        naga::valid::Capabilities::all(),
    );
    match validator.validate(module) {
        Ok(_info) => Ok(()),
        Err(e) => Err(e.to_string()),
    }
}

} // verus!
