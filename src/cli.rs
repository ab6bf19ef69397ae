//! The command line of the package manager, as plain values.
use vstd::prelude::*;

verus! {

#[derive(Debug, PartialEq, Eq)]
pub struct Cli {
    /// The root filesystem to work on.
    pub root: String,
    pub command: Command,
}

#[derive(Debug, PartialEq, Eq)]
pub enum Command {
    /// Install a package, named or given by its document.
    Install { source: InstallSource },
    /// Remove every version of a package.
    Remove { id: String },
    /// Lay out a fresh root filesystem.
    InitRoot,
}

impl Command {
    /// Every command but `InitRoot` works on a complete root.
    pub fn needs_complete_root(&self) -> (r: bool)
        ensures
            r == !(self is InitRoot),
    {
        match self {
            Command::InitRoot => false,
            _ => true,
        }
    }
}

#[derive(Debug, Clone, PartialEq, Eq)]
pub enum InstallSource {
    /// A package to find by its name.
    Name(String),
    /// A package document on the local disk.
    Path(String),
}

/// Reads the argument of `install`: a path where it names an existing file,
/// a package name otherwise.
pub fn parse_install_source(input: &str, is_existing_file: bool) -> (r: Result<InstallSource, String>)
    ensures
        r matches Ok(s) && (if is_existing_file {
            s matches InstallSource::Path(p) && p@ == input@
        } else {
            s matches InstallSource::Name(n) && n@ == input@
        }),
{
    if is_existing_file {
        Ok(InstallSource::Path(input.to_owned()))
    } else {
        Ok(InstallSource::Name(input.to_owned()))
    }
}

} // verus!
