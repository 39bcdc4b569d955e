//! The discriminated error values a render pass can produce.

use vstd::prelude::*;

verus! {

/// One discriminated error value per failure mode of a render pass.
///
/// The scanner produces `MissingCommandType` and `MissingClosingTag`, each
/// carrying a rendered position diagnostic. The host execution boundary
/// produces `SyntaxError` (the generated program failed to compile, carrying
/// the host's message) and `FunctionError` (a runtime failure during
/// execution).
#[derive(Debug, PartialEq)]
pub enum RenderError {
    SyntaxError(String),
    FunctionError,
    MissingCommandType(String),
    MissingClosingTag(String),
}

/// The rendered message of an error, as a sequence of characters.
pub open spec fn spec_message(e: RenderError) -> Seq<char> {
    match e {
        RenderError::SyntaxError(m) => "Template syntax error: "@ + m@,
        RenderError::FunctionError => "Template function call error"@,
        RenderError::MissingCommandType(m) => "Missing command type at "@ + m@,
        RenderError::MissingClosingTag(m) => "Missing closing command tag at "@ + m@,
    }
}

impl RenderError {
    /// Renders the error as a human-readable message.
    pub fn message(&self) -> (r: String)
        ensures
            r@ == spec_message(*self),
    {
        match self {
            RenderError::SyntaxError(m) => {
                let mut s = String::from_str("Template syntax error: ");
                s.append(m.as_str());
                s
            },
            RenderError::FunctionError => String::from_str("Template function call error"),
            RenderError::MissingCommandType(m) => {
                let mut s = String::from_str("Missing command type at ");
                s.append(m.as_str());
                s
            },
            RenderError::MissingClosingTag(m) => {
                let mut s = String::from_str("Missing closing command tag at ");
                s.append(m.as_str());
                s
            },
        }
    }
}

} // verus!
