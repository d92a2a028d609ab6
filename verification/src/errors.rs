//! The error type shared by the whole engine.  Every error carries the data
//! needed to describe it; `Error::message` builds the user-facing text.

use vstd::prelude::*;

verus! {

/// The specific type of an error.
#[derive(Debug)]
#[non_exhaustive]
pub enum ErrorKind {
    MissingTemplateDefinition,
    InvalidTemplate,
    UnreadableStdin,
    InvalidVariableName(String),
    /// An error while cloning a repository.
    Git { msg: String },
    /// An error while doing IO (reading/writing files), with the offending
    /// path.
    Io { msg: String, path: String },
    /// An error when rendering a template; the path, when present, names the
    /// source file the template came from.
    Tera { msg: String, path: Option<String> },
    /// An error while deserializing a manifest into a definition.
    Toml { msg: String },
    /// A glob pattern couldn't be built from the input.
    InvalidGlobPattern {
        pattern_before_rendering: String,
        pattern_after_rendering: Option<String>,
        msg: String,
    },
    /// A value offered for a variable that cannot be accepted.
    InvalidInput { msg: String },
}

/// The error type.
#[derive(Debug)]
pub struct Error {
    /// Kind of error.
    pub kind: ErrorKind,
}

/// Build an error of the given kind.
pub fn new_error(kind: ErrorKind) -> (r: Error)
    ensures
        r.kind == kind,
{
    Error { kind }
}

/// The user-facing description of an error, by kind.
pub open spec fn spec_message(kind: ErrorKind) -> Seq<char> {
    match kind {
        ErrorKind::Io { msg, path } => msg@ + ": \""@ + path@ + "\""@,
        ErrorKind::Tera { msg, path } => match path {
            Some(p) => msg@ + ": \""@ + p@ + "\""@,
            None => msg@ + ": rendering a one-off template"@,
        },
        ErrorKind::Git { msg } => "Could not clone the repository: "@ + msg@,
        ErrorKind::Toml { msg } => "Invalid TOML: "@ + msg@,
        ErrorKind::InvalidGlobPattern {
            pattern_before_rendering,
            pattern_after_rendering,
            msg,
        } => match pattern_after_rendering {
            Some(after) => "Invalid glob pattern `"@ + after@ + "` (before rendering: "@
                + pattern_before_rendering@ + "): "@ + msg@,
            None => "Invalid glob pattern `"@ + pattern_before_rendering@ + "`: "@ + msg@,
        },
        ErrorKind::InvalidVariableName(name) => "Variable "@ + name@
            + " not found in the template definition"@,
        ErrorKind::MissingTemplateDefinition => "The template.toml is missing"@,
        ErrorKind::UnreadableStdin => "Unable to read from stdin"@,
        ErrorKind::InvalidTemplate => "The template.toml is invalid"@,
        ErrorKind::InvalidInput { msg } => msg@,
    }
}

impl Error {
    /// The user-facing description of this error.
    pub fn message(&self) -> (r: String)
        ensures
            r@ == spec_message(self.kind),
    {
        let mut s = String::new();
        match &self.kind {
            ErrorKind::Io { msg, path } => {
                s.append(msg.as_str());
                s.append(": \"");
                s.append(path.as_str());
                s.append("\"");
            },
            ErrorKind::Tera { msg, path } => {
                s.append(msg.as_str());
                match path {
                    Some(p) => {
                        s.append(": \"");
                        s.append(p.as_str());
                        s.append("\"");
                    },
                    None => {
                        s.append(": rendering a one-off template");
                    },
                }
            },
            ErrorKind::Git { msg } => {
                s.append("Could not clone the repository: ");
                s.append(msg.as_str());
            },
            ErrorKind::Toml { msg } => {
                s.append("Invalid TOML: ");
                s.append(msg.as_str());
            },
            ErrorKind::InvalidGlobPattern { pattern_before_rendering, pattern_after_rendering, msg } => {
                match pattern_after_rendering {
                    Some(after) => {
                        s.append("Invalid glob pattern `");
                        s.append(after.as_str());
                        s.append("` (before rendering: ");
                        s.append(pattern_before_rendering.as_str());
                        s.append("): ");
                        s.append(msg.as_str());
                    },
                    None => {
                        s.append("Invalid glob pattern `");
                        s.append(pattern_before_rendering.as_str());
                        s.append("`: ");
                        s.append(msg.as_str());
                    },
                }
            },
            ErrorKind::InvalidVariableName(name) => {
                s.append("Variable ");
                s.append(name.as_str());
                s.append(" not found in the template definition");
            },
            ErrorKind::MissingTemplateDefinition => {
                s.append("The template.toml is missing");
            },
            ErrorKind::UnreadableStdin => {
                s.append("Unable to read from stdin");
            },
            ErrorKind::InvalidTemplate => {
                s.append("The template.toml is invalid");
            },
            ErrorKind::InvalidInput { msg } => {
                s.append(msg.as_str());
            },
        }
        proof {
            assert(s@ =~= spec_message(self.kind));
        }
        s
    }
}

} // verus!
