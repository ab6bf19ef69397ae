use libpkg::cli::{parse_install_source, Command, InstallSource};

#[test]
fn only_init_root_works_on_an_incomplete_root() {
    assert!(!Command::InitRoot.needs_complete_root());
    assert!(Command::Remove { id: "x".to_string() }.needs_complete_root());
    assert!(Command::Install { source: InstallSource::Name("x".to_string()) }.needs_complete_root());
}

#[test]
fn install_source_is_a_path_only_for_an_existing_file() {
    assert_eq!(parse_install_source("./demo.tl", true), Ok(InstallSource::Path("./demo.tl".to_string())));
    assert_eq!(parse_install_source("demo", false), Ok(InstallSource::Name("demo".to_string())));
}
