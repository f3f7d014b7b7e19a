//! The memory segments of the stack machine.

use crate::error::TranslateError;
use crate::text::same_text;
use vstd::prelude::*;

verus! {

/// A named class of storage.
#[derive(Debug, Clone, Copy, PartialEq, Eq, Structural)]
pub enum Segment {
    ARGUMENT,
    LOCAL,
    STATIC,
    CONSTANT,
    THIS,
    THAT,
    POINTER,
    TEMP,
}

/// The segment that a name stands for, if any. Names are case sensitive.
pub open spec fn segment_of(name: Seq<char>) -> Option<Segment> {
    if name == "argument"@ {
        Some(Segment::ARGUMENT)
    } else if name == "local"@ {
        Some(Segment::LOCAL)
    } else if name == "static"@ {
        Some(Segment::STATIC)
    } else if name == "constant"@ {
        Some(Segment::CONSTANT)
    } else if name == "this"@ {
        Some(Segment::THIS)
    } else if name == "that"@ {
        Some(Segment::THAT)
    } else if name == "pointer"@ {
        Some(Segment::POINTER)
    } else if name == "temp"@ {
        Some(Segment::TEMP)
    } else {
        None
    }
}

/// The register that holds the base address of a segment, for the four
/// segments that are addressed through one.
pub open spec fn register_alias(segment: Segment) -> Option<Seq<char>> {
    match segment {
        Segment::LOCAL => Some("LCL"@),
        Segment::ARGUMENT => Some("ARG"@),
        Segment::THIS => Some("THIS"@),
        Segment::THAT => Some("THAT"@),
        _ => None,
    }
}

/// What asking for the base register of the segment called `name` gives.
pub open spec fn register_alias_of(name: Seq<char>) -> Result<Seq<char>, TranslateError> {
    match segment_of(name) {
        None => Err(TranslateError::MalformedCommand),
        Some(segment) => match register_alias(segment) {
            None => Err(TranslateError::UnsupportedOperation),
            Some(register) => Ok(register),
        },
    }
}

impl Segment {
    /// Resolves a segment name; `None` for a name that is no segment.
    pub fn from_str(s: &str) -> (res: Option<Segment>)
        ensures
            res == segment_of(s@),
    {
        if same_text(s, "argument") {
            Some(Segment::ARGUMENT)
        } else if same_text(s, "local") {
            Some(Segment::LOCAL)
        } else if same_text(s, "static") {
            Some(Segment::STATIC)
        } else if same_text(s, "constant") {
            Some(Segment::CONSTANT)
        } else if same_text(s, "this") {
            Some(Segment::THIS)
        } else if same_text(s, "that") {
            Some(Segment::THAT)
        } else if same_text(s, "pointer") {
            Some(Segment::POINTER)
        } else if same_text(s, "temp") {
            Some(Segment::TEMP)
        } else {
            None
        }
    }

    /// The name of the base register of the segment called `segment`.
    pub fn to_register_alias_str(segment: &str) -> (res: Result<String, TranslateError>)
        ensures
            match res {
                Ok(register) => register_alias_of(segment@) == Ok::<Seq<char>, TranslateError>(
                    register@,
                ),
                Err(e) => register_alias_of(segment@) == Err::<Seq<char>, TranslateError>(e),
            },
    {
        match Segment::from_str(segment) {
            Some(Segment::LOCAL) => Ok("LCL".to_owned()),
            Some(Segment::ARGUMENT) => Ok("ARG".to_owned()),
            Some(Segment::THIS) => Ok("THIS".to_owned()),
            Some(Segment::THAT) => Ok("THAT".to_owned()),
            Some(_) => Err(TranslateError::UnsupportedOperation),
            None => Err(TranslateError::MalformedCommand),
        }
    }
}

} // verus!
