use libpkg::package::{Dependency, Package, Src};

fn sample(name: &str) -> Package {
    Package {
        id: "demo".to_string(),
        name: name.to_string(),
        version: "0.1.0".to_string(),
        description: "No description".to_string(),
        authors: vec!["someone".to_string()],
        build_deps: vec![],
        runtime_deps: vec![Dependency { id: "libc".to_string(), version: None }],
        src: Src::Path("./src".to_string()),
        expected_output: vec!["bin/demo".to_string()],
        build: "make".to_string(),
        install: "make install".to_string(),
        path: None,
    }
}

#[test]
fn dependency_with_version_serializes_with_at() {
    let d = Dependency { id: "foo".to_string(), version: Some("1.2".to_string()) };
    assert_eq!(d.to_text(), "foo@1.2");
}

#[test]
fn dependency_without_version_serializes_to_id() {
    let d = Dependency { id: "foo".to_string(), version: None };
    assert_eq!(d.to_text(), "foo");
    let e = Dependency { id: "foo".to_string(), version: Some(String::new()) };
    assert_eq!(e.to_text(), "foo");
}

#[test]
fn dependency_parse_plain_id() {
    let d = Dependency::parse("foo");
    assert_eq!(d.id, "foo");
    assert_eq!(d.version, None);
}

#[test]
fn dependency_parse_with_version() {
    let d = Dependency::parse("foo@1.2");
    assert_eq!(d.id, "foo");
    assert_eq!(d.version, Some("1.2".to_string()));
}

#[test]
fn dependency_parse_takes_first_id_and_last_version() {
    let d = Dependency::parse("a@b@c");
    assert_eq!(d.id, "a");
    assert_eq!(d.version, Some("c".to_string()));
    let e = Dependency::parse("foo@");
    assert_eq!(e.id, "foo");
    assert_eq!(e.version, Some(String::new()));
}

#[test]
fn dependency_round_trip() {
    let d = Dependency { id: "ripgrep".to_string(), version: Some("14.1.0".to_string()) };
    let back = Dependency::parse(&d.to_text());
    assert_eq!(back.id, d.id);
    assert_eq!(back.version, d.version);
    let n = Dependency { id: "ripgrep".to_string(), version: None };
    let back = Dependency::parse(&n.to_text());
    assert_eq!(back.id, "ripgrep");
    assert_eq!(back.version, None);
}

#[test]
fn src_kind_follows_local_existence() {
    assert!(matches!(Src::from_text("/tmp/x".to_string(), true), Src::Path(p) if p == "/tmp/x"));
    assert!(matches!(Src::from_text("https://example.org/x.git".to_string(), false), Src::Git(u) if u == "https://example.org/x.git"));
    assert_eq!(Src::Path("/a/b".to_string()).to_text(), "/a/b");
    assert_eq!(Src::Git("git://h/r".to_string()).to_text(), "git://h/r");
}

#[test]
fn complete_defaults_name_to_id() {
    let p = sample("").complete(Some("/pkgs/demo.tl".to_string()));
    assert_eq!(p.name, "demo");
    assert_eq!(p.path, Some("/pkgs/demo.tl".to_string()));
    assert_eq!(p.version, "0.1.0");
}

#[test]
fn complete_keeps_given_name() {
    let p = sample("Demo Tool").complete(None);
    assert_eq!(p.name, "Demo Tool");
    assert_eq!(p.path, None);
}
