//! Errors of the package manager, and how system errors get their context.
use vstd::prelude::*;

use crate::text::IntError;

verus! {

/// Lets `std::io::Error` stand in the fields of `PackageManagerError`.
#[verifier::external_type_specification]
#[verifier::external_body]
pub struct ExIoError(std::io::Error);

/// Lets `rustix::io::Errno`, the failure of the store-flag ioctls, stand in a field.
#[verifier::external_type_specification]
#[verifier::external_body]
pub struct ExRustixErrno(rustix::io::Errno);

/// Lets `nix::errno::Errno`, the failure of fork, chroot and wait, stand in a field.
#[verifier::external_type_specification]
#[verifier::external_body]
pub struct ExNixErrno(nix::errno::Errno);

/// Lets `fs_extra::error::Error`, the failure of the source copy, stand in a field.
#[verifier::external_type_specification]
#[verifier::external_body]
pub struct ExFsExtraError(fs_extra::error::Error);

#[derive(Debug)]
#[allow(inconsistent_fields)]
pub enum PackageManagerError {
    /// The given root path does not exist.
    RootPathDoesntExist,
    /// No store entry has the requested id.
    PackageNotInstalled,
    /// Entries with the requested id exist, but none with the requested version.
    PackageVersionNotInstalled,
    /// The store already holds an entry for this id and version.
    PackageAlreadyInstalled,
    /// The package uses a relative local source but has no local document.
    LocalPathOnRemotePackage,
    /// The package's source is a git repository, which cannot be fetched yet.
    GitSourceUnsupported,
    /// The current generation already has the largest id there is.
    GenerationLimitReached,
    /// Dropping to the sandbox user failed.
    SetUID,
    /// The package document did not evaluate to a package.
    PackageEval(String),
    /// A number in the root's files could not be read.
    ParseInt(IntError),
    IO { context: String, source: std::io::Error },
    RustixIO { context: String, source: rustix::io::Errno },
    Nix { context: String, source: nix::errno::Errno },
    FS { context: String, source: fs_extra::error::Error },
}

impl PackageManagerError {
    pub fn io(context: String, err: std::io::Error) -> (r: Self)
        ensures
            r == (PackageManagerError::IO { context, source: err }),
    {
        PackageManagerError::IO { context, source: err }
    }

    pub fn rustix_io(context: String, err: rustix::io::Errno) -> (r: Self)
        ensures
            r == (PackageManagerError::RustixIO { context, source: err }),
    {
        PackageManagerError::RustixIO { context, source: err }
    }

    pub fn nix(context: String, err: nix::errno::Errno) -> (r: Self)
        ensures
            r == (PackageManagerError::Nix { context, source: err }),
    {
        PackageManagerError::Nix { context, source: err }
    }

    pub fn fs(context: String, err: fs_extra::error::Error) -> (r: Self)
        ensures
            r == (PackageManagerError::FS { context, source: err }),
    {
        PackageManagerError::FS { context, source: err }
    }
}

/// Attaches a description of the attempted operation to a failed result.
pub trait Context<T, E>: Sized {
    /// The result that `context` gives.
    spec fn with_context(self, context: String) -> Result<T, PackageManagerError>;

    fn context(self, context: String) -> (r: Result<T, PackageManagerError>)
        ensures
            r == self.with_context(context),
    ;
}

impl<T> Context<T, std::io::Error> for Result<T, std::io::Error> {
    open spec fn with_context(self, context: String) -> Result<T, PackageManagerError> {
        match self {
            Ok(v) => Ok(v),
            Err(e) => Err(PackageManagerError::IO { context, source: e }),
        }
    }

    fn context(self, context: String) -> (r: Result<T, PackageManagerError>) {
        match self {
            Ok(v) => Ok(v),
            Err(e) => Err(PackageManagerError::io(context, e)),
        }
    }
}

impl<T> Context<T, rustix::io::Errno> for Result<T, rustix::io::Errno> {
    open spec fn with_context(self, context: String) -> Result<T, PackageManagerError> {
        match self {
            Ok(v) => Ok(v),
            Err(e) => Err(PackageManagerError::RustixIO { context, source: e }),
        }
    }

    fn context(self, context: String) -> (r: Result<T, PackageManagerError>) {
        match self {
            Ok(v) => Ok(v),
            Err(e) => Err(PackageManagerError::rustix_io(context, e)),
        }
    }
}

impl<T> Context<T, nix::errno::Errno> for Result<T, nix::errno::Errno> {
    open spec fn with_context(self, context: String) -> Result<T, PackageManagerError> {
        match self {
            Ok(v) => Ok(v),
            Err(e) => Err(PackageManagerError::Nix { context, source: e }),
        }
    }

    fn context(self, context: String) -> (r: Result<T, PackageManagerError>) {
        match self {
            Ok(v) => Ok(v),
            Err(e) => Err(PackageManagerError::nix(context, e)),
        }
    }
}

impl<T> Context<T, fs_extra::error::Error> for Result<T, fs_extra::error::Error> {
    open spec fn with_context(self, context: String) -> Result<T, PackageManagerError> {
        match self {
            Ok(v) => Ok(v),
            Err(e) => Err(PackageManagerError::FS { context, source: e }),
        }
    }

    fn context(self, context: String) -> (r: Result<T, PackageManagerError>) {
        match self {
            Ok(v) => Ok(v),
            Err(e) => Err(PackageManagerError::fs(context, e)),
        }
    }
}

} // verus!
