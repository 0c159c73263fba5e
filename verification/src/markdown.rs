//! The typesetting language's math nodes. This build has no math renderer:
//! every LaTeX node is a typed "unsupported" error at its source location.

use vstd::prelude::*;

use crate::size::TextSize;
use crate::strike::Strike;
use vstd::string::StringExecFns;

verus! {

/// A rendered formula: its packed picture and where its baseline sits.
#[derive(Debug)]
pub struct Math {
    pub strike: Strike,
    pub baseline: i32,
}

/// What the markdown layer could not set.
#[derive(Debug, Clone, PartialEq, Eq)]
pub enum Error {
    /// A construct this build cannot set, why, and what to do instead.
    Unsupported { feature: &'static str, reason: &'static str, hint: &'static str },
}

/// The message of an error.
pub open spec fn error_message(e: Error) -> Seq<char> {
    match e {
        Error::Unsupported { feature, reason, hint } => "unsupported "@ + feature@ + ": "@ + reason@
            + "; "@ + hint@,
    }
}

impl Error {
    /// A construct this build cannot set.
    pub fn unsupported(feature: &'static str, reason: &'static str, hint: &'static str) -> (r: Error)
        ensures
            r == (Error::Unsupported { feature, reason, hint }),
    {
        Error::Unsupported { feature, reason, hint }
    }

    /// The stable code of the error's kind.
    pub fn code(&self) -> (r: &'static str)
        ensures
            r@ == "markdown.unsupported"@,
    {
        match self {
            Error::Unsupported { .. } => "markdown.unsupported",
        }
    }

    /// The message: the feature, why it is unsupported and what to do.
    pub fn message(&self) -> (r: String)
        ensures
            r@ == error_message(*self),
    {
        match self {
            Error::Unsupported { feature, reason, hint } => {
                let mut s = String::from_str("unsupported ");
                s.append(feature);
                s.append(": ");
                s.append(reason);
                s.append("; ");
                s.append(hint);
                s
            },
        }
    }
}

/// The error every math node gives in this build.
pub open spec fn no_math_renderer() -> Error {
    Error::Unsupported {
        feature: "math",
        reason: "this build of tm20-md has no math renderer",
        hint: "remove the LaTeX, or build tm20-md with the `math` feature",
    }
}

fn unsupported() -> (r: Error)
    ensures
        r == no_math_renderer(),
{
    Error::unsupported(
        "math",
        "this build of tm20-md has no math renderer",
        "remove the LaTeX, or build tm20-md with the `math` feature",
    )
}

/// Inline math: unsupported in this build, whatever the LaTeX and size.
pub fn inline(latex: &str, size: TextSize) -> (r: Result<Math, Error>)
    ensures
        r matches Err(e) && e == no_math_renderer(),
{
    Err(unsupported())
}

/// Display math: unsupported in this build, whatever the LaTeX and size.
pub fn display(latex: &str, size: TextSize) -> (r: Result<Math, Error>)
    ensures
        r matches Err(e) && e == no_math_renderer(),
{
    Err(unsupported())
}

} // verus!
