//! The error type of the shell.

use vstd::prelude::*;
use crate::text::concat2;

verus! {

broadcast use vstd::string::group_string_axioms;

#[verifier::external_type_specification]
#[verifier::external_body]
pub struct ExIoError(std::io::Error);

/// Errors of the shell.
#[derive(Debug)]
pub enum OmniShellError {
    Config(String),
    AclViolation(String),
    Snapshot(String),
    Llm(String),
    Sandbox(String),
    Profile(String),
    Io(std::io::Error),
}

/// The heading of an error's message, by variant.
pub open spec fn error_heading(e: OmniShellError) -> Seq<char> {
    match e {
        OmniShellError::Config(_) => "Configuration error: "@,
        OmniShellError::AclViolation(_) => "ACL violation: "@,
        OmniShellError::Snapshot(_) => "Snapshot error: "@,
        OmniShellError::Llm(_) => "LLM error: "@,
        OmniShellError::Sandbox(_) => "Sandbox error: "@,
        OmniShellError::Profile(_) => "Profile error: "@,
        OmniShellError::Io(_) => "IO error: "@,
    }
}

/// The text of an I/O error (its `Display`).
///
/// Trusted, with nothing stated: the text is the operating system's.
#[verifier::external_body]
fn io_error_text(e: &std::io::Error) -> (r: String)
{
    e.to_string()
}

impl OmniShellError {
    /// The error's message: its heading, then its detail.
    pub fn message(&self) -> (r: String)
        ensures
            match self {
                OmniShellError::Config(d) => r@ == error_heading(*self) + d@,
                OmniShellError::AclViolation(d) => r@ == error_heading(*self) + d@,
                OmniShellError::Snapshot(d) => r@ == error_heading(*self) + d@,
                OmniShellError::Llm(d) => r@ == error_heading(*self) + d@,
                OmniShellError::Sandbox(d) => r@ == error_heading(*self) + d@,
                OmniShellError::Profile(d) => r@ == error_heading(*self) + d@,
                OmniShellError::Io(_) => r@.len() >= error_heading(*self).len()
                    && r@.subrange(0, error_heading(*self).len() as int) == error_heading(*self),
            },
    {
        match self {
            OmniShellError::Config(d) => concat2("Configuration error: ", d.as_str()),
            OmniShellError::AclViolation(d) => concat2("ACL violation: ", d.as_str()),
            OmniShellError::Snapshot(d) => concat2("Snapshot error: ", d.as_str()),
            OmniShellError::Llm(d) => concat2("LLM error: ", d.as_str()),
            OmniShellError::Sandbox(d) => concat2("Sandbox error: ", d.as_str()),
            OmniShellError::Profile(d) => concat2("Profile error: ", d.as_str()),
            OmniShellError::Io(e) => {
                let text = io_error_text(e);
                let r = concat2("IO error: ", text.as_str());
                assert(r@.subrange(0, error_heading(*self).len() as int) =~= error_heading(*self));
                r
            },
        }
    }
}

} // verus!
