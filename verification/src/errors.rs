//! The library's error type.
//!
//! Every fallible operation of the library reports one of these variants.
//! Each carries the names needed to render a helpful message; `message`
//! builds that text, and its contract pins the text exactly.

use vstd::prelude::*;
use vstd::string::StringExecFns;
use crate::text::join_spec;
use crate::text::join_strings;

verus! {

/// What went wrong during an assembly run.
#[derive(Debug)]
pub enum Error {
    /// A language token resolved to neither a rules file nor a conditional
    /// directory.
    UnknownLanguage { input: String, canonical: String },
    /// Server names were requested although the template has no server
    /// directory at all.
    McpDirMissing,
    /// An explicitly requested server name has no definition file; carries
    /// the stems that do exist.
    McpNotFound { name: String, available: Vec<String> },
    /// An explicitly requested hook name has no definition file; carries
    /// the stems that do exist.
    HookNotFound { name: String, available: Vec<String> },
    /// A requested guard profile has no definition file; carries the stems
    /// that do exist.
    ClargNotFound { name: String, available: Vec<String> },
    /// A fragment file did not parse as JSON.
    JsonParse { path: String },
    /// A fragment file parsed, but its top level is not an object.
    NotAnObject { path: String },
    /// A hook file maps an event type to something other than an array.
    NotAnArray { key: String, path: String },
    /// A fragment template failed to render.
    RenderFailed { name: String },
    /// Destination paths already exist and overwriting was not requested;
    /// carries every conflicting path.
    Conflicts { paths: Vec<String> },
    /// The user declined to overwrite the conflicting paths.
    Aborted,
}

/// The message text of each error variant.
pub open spec fn message_spec(e: &Error) -> Seq<char> {
    match e {
        Error::UnknownLanguage { input, canonical } => "Unknown language '"@ + input@
            + "': no rules file (agent-md/lang-rules/"@ + canonical@
            + ".md) and no conditional directories in template"@,
        Error::McpDirMissing => "--mcp specified but no mcp/ directory in template"@,
        Error::McpNotFound { name, available } => "MCP '"@ + name@
            + "' not found in the template's mcp directory. Available: "@ + join_spec(
            available.deep_view(),
            ", "@,
        ),
        Error::HookNotFound { name, available } => "Hook '"@ + name@
            + "' not found in the template's hooks directory. Available: "@ + join_spec(
            available.deep_view(),
            ", "@,
        ),
        Error::ClargNotFound { name, available } => "Clarg config '"@ + name@
            + "' not found in the template's clarg directory. Available: "@ + join_spec(
            available.deep_view(),
            ", "@,
        ),
        Error::JsonParse { path } => "Failed to parse "@ + path@,
        Error::NotAnObject { path } => path@ + " is not an object"@,
        Error::NotAnArray { key, path } => "'"@ + key@ + "' in "@ + path@ + " is not an array"@,
        Error::RenderFailed { name } => "Failed to render "@ + name@,
        Error::Conflicts { paths } => {
            "The following files/directories already exist and would be overwritten:\n  "@
                + join_spec(paths.deep_view(), "\n  "@)
                + "\nRemove them first, run from a clean directory, or use --force."@
        },
        Error::Aborted => "Aborted."@,
    }
}

impl Error {
    /// Renders the message text that `message_spec` describes.
    pub fn message(&self) -> (r: String)
        ensures
            r@ == message_spec(self),
    {
        match self {
            Error::UnknownLanguage { input, canonical } => {
                let mut m = String::new();
                m.append("Unknown language '");
                m.append(input.as_str());
                m.append("': no rules file (agent-md/lang-rules/");
                m.append(canonical.as_str());
                m.append(".md) and no conditional directories in template");
                m
            },
            Error::McpDirMissing => {
                let mut m = String::new();
                m.append("--mcp specified but no mcp/ directory in template");
                m
            },
            Error::McpNotFound { name, available } => {
                let mut m = String::new();
                m.append("MCP '");
                m.append(name.as_str());
                m.append("' not found in the template's mcp directory. Available: ");
                let list = join_strings(available, ", ");
                m.append(list.as_str());
                m
            },
            Error::HookNotFound { name, available } => {
                let mut m = String::new();
                m.append("Hook '");
                m.append(name.as_str());
                m.append("' not found in the template's hooks directory. Available: ");
                let list = join_strings(available, ", ");
                m.append(list.as_str());
                m
            },
            Error::ClargNotFound { name, available } => {
                let mut m = String::new();
                m.append("Clarg config '");
                m.append(name.as_str());
                m.append("' not found in the template's clarg directory. Available: ");
                let list = join_strings(available, ", ");
                m.append(list.as_str());
                m
            },
            Error::JsonParse { path } => {
                let mut m = String::new();
                m.append("Failed to parse ");
                m.append(path.as_str());
                m
            },
            Error::NotAnObject { path } => {
                let mut m = String::new();
                m.append(path.as_str());
                m.append(" is not an object");
                m
            },
            Error::NotAnArray { key, path } => {
                let mut m = String::new();
                m.append("'");
                m.append(key.as_str());
                m.append("' in ");
                m.append(path.as_str());
                m.append(" is not an array");
                m
            },
            Error::RenderFailed { name } => {
                let mut m = String::new();
                m.append("Failed to render ");
                m.append(name.as_str());
                m
            },
            Error::Conflicts { paths } => {
                let mut m = String::new();
                m.append(
                    "The following files/directories already exist and would be overwritten:\n  ",
                );
                let list = join_strings(paths, "\n  ");
                m.append(list.as_str());
                m.append("\nRemove them first, run from a clean directory, or use --force.");
                m
            },
            Error::Aborted => {
                let mut m = String::new();
                m.append("Aborted.");
                m
            },
        }
    }
}

} // verus!
