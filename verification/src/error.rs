//! The engine's error type.

use vstd::prelude::*;

verus! {

/// What part of the engine an error comes from.
#[derive(Debug, Clone, Copy, PartialEq, Eq, Structural)]
pub enum HellErrorKind {
    GenericError,
    RenderError,
    ResourceError,
}

#[derive(Debug)]
pub struct HellError {
    pub kind: HellErrorKind,
    pub msg: String,
}

impl HellError {
    pub fn from_msg(kind: HellErrorKind, msg: String) -> (e: HellError)
        ensures
            e.kind == kind,
            e.msg@ == msg@,
    {
        HellError { kind, msg }
    }

    /// A rendering error with the given message.
    pub fn render_msg_err(msg: &str) -> (e: HellError)
        ensures
            e.kind == HellErrorKind::RenderError,
            e.msg@ == msg@,
    {
        HellError { kind: HellErrorKind::RenderError, msg: msg.to_owned() }
    }

    /// A resource error with the given message.
    pub fn resource_msg_err(msg: &str) -> (e: HellError)
        ensures
            e.kind == HellErrorKind::ResourceError,
            e.msg@ == msg@,
    {
        HellError { kind: HellErrorKind::ResourceError, msg: msg.to_owned() }
    }
}

pub type HellResult<T> = Result<T, HellError>;

} // verus!
