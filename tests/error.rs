use libpkg::error::{Context, PackageManagerError};

#[test]
fn io_context_wraps_the_error() {
    let r: Result<u8, std::io::Error> = Err(std::io::Error::new(std::io::ErrorKind::NotFound, "gone"));
    match r.context("read links".to_string()) {
        Err(PackageManagerError::IO { context, source }) => {
            assert_eq!(context, "read links");
            assert_eq!(source.kind(), std::io::ErrorKind::NotFound);
        }
        other => panic!("unexpected {other:?}"),
    }
    let ok: Result<u8, std::io::Error> = Ok(3);
    assert!(matches!(ok.context("x".to_string()), Ok(3)));
}

#[test]
fn rustix_and_nix_context_wrap_the_errno() {
    let r: Result<(), rustix::io::Errno> = Err(rustix::io::Errno::PERM);
    assert!(matches!(r.context("flags".to_string()), Err(PackageManagerError::RustixIO { context, source }) if context == "flags" && source == rustix::io::Errno::PERM));
    let n: Result<(), nix::errno::Errno> = Err(nix::errno::Errno::EPERM);
    assert!(matches!(n.context("fork".to_string()), Err(PackageManagerError::Nix { context, source }) if context == "fork" && source == nix::errno::Errno::EPERM));
}

#[test]
fn fs_extra_context_wraps_the_error() {
    let e = fs_extra::error::Error::new(fs_extra::error::ErrorKind::NotFound, "missing");
    let r: Result<u64, fs_extra::error::Error> = Err(e);
    assert!(matches!(r.context("copy".to_string()), Err(PackageManagerError::FS { context, .. }) if context == "copy"));
}

#[test]
fn constructors_fill_the_fields() {
    let e = PackageManagerError::io("ctx".to_string(), std::io::Error::new(std::io::ErrorKind::Other, "x"));
    assert!(matches!(e, PackageManagerError::IO { context, .. } if context == "ctx"));
    let e = PackageManagerError::nix("n".to_string(), nix::errno::Errno::EIO);
    assert!(matches!(e, PackageManagerError::Nix { source: nix::errno::Errno::EIO, .. }));
}
