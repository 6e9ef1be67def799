//! Typed failures of the resolution and activation core. Internal functions
//! return these; only the outermost command handler turns one into a printed
//! diagnostic and a process exit.
use vstd::prelude::*;

verus! {

#[derive(Debug, Clone, PartialEq, Eq)]
pub enum DvmError {
    /// The input is neither a known tag, an exact version nor a known alias.
    InvalidVersion(String),
    /// The input does not parse as a semantic-version requirement.
    InvalidVersionReq(String),
    /// The name is not a built-in or user-defined alias.
    UnknownAlias(String),
    /// No candidate version satisfies the requirement.
    NoVersionSatisfying(String),
    /// The requested version is not installed.
    VersionNotInstalled(String),
    /// The requested version is the one currently in use.
    VersionInUse(String),
}

impl DvmError {
    /// A short diagnostic line for the top-level handler to print.
    pub fn message(&self) -> (r: String)
        ensures
            r@ == match self {
                DvmError::InvalidVersion(s) => s@ + " is not a valid semver version or tag"@,
                DvmError::InvalidVersionReq(s) => s@ + " is not a valid semver range"@,
                DvmError::UnknownAlias(s) => s@ + " is not a known alias"@,
                DvmError::NoVersionSatisfying(s) => "no version satisfies "@ + s@,
                DvmError::VersionNotInstalled(s) => "deno v"@ + s@ + " is not installed"@,
                DvmError::VersionInUse(s) => "deno v"@ + s@ + " is in use"@,
            },
    {
        let mut out = String::new();
        match self {
            DvmError::InvalidVersion(s) => {
                out.append(s.as_str());
                out.append(" is not a valid semver version or tag");
            },
            DvmError::InvalidVersionReq(s) => {
                out.append(s.as_str());
                out.append(" is not a valid semver range");
            },
            DvmError::UnknownAlias(s) => {
                out.append(s.as_str());
                out.append(" is not a known alias");
            },
            DvmError::NoVersionSatisfying(s) => {
                out.append("no version satisfies ");
                out.append(s.as_str());
            },
            DvmError::VersionNotInstalled(s) => {
                out.append("deno v");
                out.append(s.as_str());
                out.append(" is not installed");
            },
            DvmError::VersionInUse(s) => {
                out.append("deno v");
                out.append(s.as_str());
                out.append(" is in use");
            },
        }
        out
    }
}

} // verus!
