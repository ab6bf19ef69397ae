use libpkg::error::PackageManagerError;
use libpkg::event::Event;
use libpkg::package::{Package, Src};
use libpkg::store::install::{Install, InstallStage};
use libpkg::store::remove::{join_lines, Remove};
use libpkg::store::{Action, LockStep, LockWatch, Outcome, SANDBOX_UID};
use libpkg::PackageManager;

/// A filesystem and a consumer, as a driver of the store sees them.
struct World {
    existing: Vec<String>,
    files: Vec<(String, String)>,
    busy_reads: usize,
    fail_release: bool,
    actions: Vec<String>,
    events: Vec<Event>,
}

impl World {
    fn fresh() -> World {
        World {
            existing: vec![
                "/r/store".to_string(),
                "/r/store/src".to_string(),
                "/r/system/generations".to_string(),
                "/r/system/generations/1".to_string(),
                "/r/home/root".to_string(),
            ],
            files: vec![("/r/store/garbage".to_string(), String::new())],
            busy_reads: 0,
            fail_release: false,
            actions: vec![],
            events: vec![],
        }
    }

    fn file(&self, path: &str) -> Option<String> {
        self.files.iter().find(|(p, _)| p == path).map(|(_, t)| t.clone())
    }

    fn set_file(&mut self, path: &str, text: &str) {
        self.files.retain(|(p, _)| p != path);
        self.files.push((path.to_string(), text.to_string()));
        if !self.existing.iter().any(|p| p == path) {
            self.existing.push(path.to_string());
        }
    }

    fn remove_path(&mut self, path: &str) -> bool {
        let before = self.existing.len();
        self.existing.retain(|p| p != path);
        self.files.retain(|(p, _)| p != path);
        before != self.existing.len()
    }

    fn matches(&self, pattern: &str) -> Vec<String> {
        let mut found: Vec<String> = match pattern.strip_suffix('*') {
            Some(prefix) => self.existing.iter().filter(|p| p.starts_with(prefix) && !p[prefix.len()..].contains('/')).cloned().collect(),
            None => self.existing.iter().filter(|p| *p == pattern).cloned().collect(),
        };
        found.sort();
        found
    }

    fn perform(&mut self, action: Action) -> Option<Outcome> {
        self.actions.push(format!("{action:?}"));
        Some(match action {
            Action::ReadLock { .. } => {
                if self.busy_reads > 0 {
                    self.busy_reads -= 1;
                    Outcome::Flag(false)
                } else {
                    Outcome::Flag(true)
                }
            }
            Action::Send(e) => {
                self.events.push(e);
                Outcome::Done
            }
            Action::SetStoreImmutable(true) if self.fail_release => Outcome::Failed(PackageManagerError::io(
                "release".to_string(),
                std::io::Error::new(std::io::ErrorKind::PermissionDenied, "flags"),
            )),
            Action::SetStoreImmutable(_) => Outcome::Done,
            Action::CheckExists(p) => Outcome::Flag(self.existing.contains(&p)),
            Action::CreateDirAll(p) => {
                self.existing.push(p);
                Outcome::Done
            }
            Action::CreateEmptyFile(p) => {
                self.set_file(&p, "");
                Outcome::Done
            }
            Action::Canonicalize(p) => Outcome::Path(p),
            Action::CopySource { to, .. } => {
                self.existing.push(to);
                Outcome::Done
            }
            Action::RunSandbox { .. } => Outcome::Done,
            Action::MatchEntries { any_version, exact } => {
                Outcome::Entries { any_version: self.matches(&any_version), exact: self.matches(&exact) }
            }
            Action::ReadFile(p) => Outcome::Text(self.file(&p)),
            Action::RemoveFile(p) => {
                if self.remove_path(&p) {
                    Outcome::Done
                } else {
                    Outcome::Failed(PackageManagerError::io(
                        "remove".to_string(),
                        std::io::Error::new(std::io::ErrorKind::NotFound, "missing"),
                    ))
                }
            }
            Action::AppendLine { file, text } => {
                let old = self.file(&file).unwrap_or_default();
                self.set_file(&file, &format!("{old}{text}\n"));
                Outcome::Done
            }
            Action::Finish => return None,
        })
    }

    fn install(&mut self, mut run: Install) {
        let mut outcome = Outcome::Done;
        loop {
            assert!(run.accepts(&outcome));
            let action = run.next(outcome);
            match self.perform(action) {
                Some(o) => outcome = o,
                None => break,
            }
        }
        assert_eq!(run.stage, InstallStage::Report);
    }

    fn remove(&mut self, mut run: Remove) {
        let mut outcome = Outcome::Done;
        loop {
            assert!(run.accepts(&outcome));
            let action = run.next(outcome);
            match self.perform(action) {
                Some(o) => outcome = o,
                None => break,
            }
        }
    }

    fn did(&self, action: &str) -> bool {
        self.actions.iter().any(|a| a == action)
    }
}

fn demo(src: Src, path: Option<&str>) -> Package {
    Package {
        id: "demo".to_string(),
        name: "demo".to_string(),
        version: "0.1.0".to_string(),
        description: "No description".to_string(),
        authors: vec![],
        build_deps: vec![],
        runtime_deps: vec![],
        src,
        expected_output: vec![],
        build: "build-it".to_string(),
        install: "install-it".to_string(),
        path: path.map(|p| p.to_string()),
    }
}

fn error_names(events: &[Event]) -> Vec<String> {
    events
        .iter()
        .filter_map(|e| match e {
            Event::Error(err) => Some(format!("{err:?}")),
            _ => None,
        })
        .collect()
}

#[test]
fn store_entry_paths() {
    let pm = PackageManager::new_with_root("/r");
    assert_eq!(PackageManager::store_entry_name("demo", "0.1.0"), "demo-0.1.0");
    assert_eq!(pm.store_entry("demo", "0.1.0"), "/r/store/demo-0.1.0");
    assert_eq!(pm.links_file("demo", "0.1.0"), "/r/store/demo-0.1.0/links");
    assert_eq!(pm.garbage_file(), "/r/store/garbage");
}

#[test]
fn get_store_item_lists_links() {
    let item = PackageManager::get_store_item("demo", "0.1.0", Some("bin/demo\n\nlib/libdemo.so\n")).unwrap();
    assert_eq!(item.id, "demo");
    assert_eq!(item.version, "0.1.0");
    assert_eq!(item.links, vec!["bin/demo".to_string(), "lib/libdemo.so".to_string()]);
    assert!(PackageManager::get_store_item("demo", "0.1.0", None).is_none());
}

#[test]
fn lock_watch_announces_wait_once() {
    let mut w = LockWatch::new();
    assert_eq!(w.observe(true), LockStep::Take);
    let mut w = LockWatch::new();
    assert_eq!(w.observe(false), LockStep::AnnounceWait);
    assert_eq!(w.observe(false), LockStep::Sleep);
    assert_eq!(w.observe(false), LockStep::Sleep);
    assert_eq!(w.observe(true), LockStep::AnnounceUnlocked);
}

#[test]
fn fresh_root_install_scenario() {
    let pm = PackageManager::new_with_root("/r");
    let mut world = World::fresh();
    world.install(pm.install(demo(Src::Path("/home/u/demo".to_string()), Some("/home/u/demo.tl"))));
    assert_eq!(world.events.len(), 1);
    assert!(matches!(world.events[0], Event::AllocatingInStore));
    assert!(error_names(&world.events).is_empty());
    assert!(world.file("/r/store/demo-0.1.0/links").is_some());
    assert!(world.existing.contains(&"/r/store/demo-0.1.0/bin".to_string()));
    assert!(world.existing.contains(&"/r/store/demo-0.1.0/lib".to_string()));
    assert!(world.did(r#"CopySource { from: "/home/u/demo", to: "/r/store/src/demo-0.1.0" }"#));
    assert!(world.did(&format!(
        r#"RunSandbox {{ root: "/r/store/demo-0.1.0", uid: {SANDBOX_UID}, build: "build-it", install: "install-it" }}"#
    )));
    assert_eq!(world.actions.last().unwrap(), "Finish");
    assert_eq!(world.actions[world.actions.len() - 2], "SetStoreImmutable(true)");
}

#[test]
fn contended_install_announces_wait_and_unlock() {
    let pm = PackageManager::new_with_root("/r");
    let mut world = World::fresh();
    world.busy_reads = 3;
    world.install(pm.install(demo(Src::Path("/home/u/demo".to_string()), None)));
    assert_eq!(world.events.len(), 3);
    assert!(matches!(world.events[0], Event::AwaitingUnlock));
    assert!(matches!(world.events[1], Event::Unlocked));
    assert!(matches!(world.events[2], Event::AllocatingInStore));
    assert_eq!(world.actions[0], "ReadLock { sleep_first: false }");
    assert_eq!(world.actions[2], "ReadLock { sleep_first: false }");
    assert_eq!(world.actions[3], "ReadLock { sleep_first: true }");
}

#[test]
fn install_then_lookup_finds_empty_entry() {
    let pm = PackageManager::new_with_root("/r");
    let mut world = World::fresh();
    world.install(pm.install(demo(Src::Path("/home/u/demo".to_string()), None)));
    let text = world.file(&pm.links_file("demo", "0.1.0")).unwrap();
    let item = PackageManager::get_store_item("demo", "0.1.0", Some(&text)).unwrap();
    assert!(item.links.is_empty());
}

#[test]
fn second_install_is_refused_and_leaves_entry() {
    let pm = PackageManager::new_with_root("/r");
    let mut world = World::fresh();
    world.install(pm.install(demo(Src::Path("/home/u/demo".to_string()), None)));
    world.set_file("/r/store/demo-0.1.0/links", "bin/demo\n");
    world.actions.clear();
    world.events.clear();
    world.install(pm.install(demo(Src::Path("/home/u/demo".to_string()), None)));
    assert_eq!(error_names(&world.events), vec!["PackageAlreadyInstalled".to_string()]);
    assert!(!world.actions.iter().any(|a| a.starts_with("Create") || a.starts_with("Copy") || a.starts_with("Run")));
    assert_eq!(world.file("/r/store/demo-0.1.0/links").unwrap(), "bin/demo\n");
    assert!(world.did("SetStoreImmutable(true)"));
}

#[test]
fn relative_source_resolves_against_document_directory() {
    let pm = PackageManager::new_with_root("/r");
    let mut world = World::fresh();
    world.install(pm.install(demo(Src::Path("src".to_string()), Some("/pkgs/demo/demo.tl"))));
    assert!(world.did(r#"Canonicalize("/pkgs/demo/src")"#));
    assert!(world.did(r#"CopySource { from: "/pkgs/demo/src", to: "/r/store/src/demo-0.1.0" }"#));
}

#[test]
fn relative_source_of_remote_package_fails() {
    let pm = PackageManager::new_with_root("/r");
    let mut world = World::fresh();
    world.install(pm.install(demo(Src::Path("src".to_string()), None)));
    assert_eq!(error_names(&world.events), vec!["LocalPathOnRemotePackage".to_string()]);
    assert!(!world.did("SetStoreImmutable(false)") || world.did("SetStoreImmutable(true)"));
}

#[test]
fn git_source_fails_after_scaffold() {
    let pm = PackageManager::new_with_root("/r");
    let mut world = World::fresh();
    world.install(pm.install(demo(Src::Git("https://example.org/demo.git".to_string()), None)));
    assert_eq!(error_names(&world.events), vec!["GitSourceUnsupported".to_string()]);
    assert!(world.file("/r/store/demo-0.1.0/links").is_some());
}

#[test]
fn staged_source_is_not_copied_again() {
    let pm = PackageManager::new_with_root("/r");
    let mut world = World::fresh();
    world.install(pm.install(demo(Src::Path("/r/store/src/demo-0.1.0".to_string()), None)));
    assert!(!world.actions.iter().any(|a| a.starts_with("Copy")));
    assert!(world.actions.iter().any(|a| a.starts_with("RunSandbox")));
}

#[test]
fn release_failure_is_reported_before_operation_failure() {
    let pm = PackageManager::new_with_root("/r");
    let mut world = World::fresh();
    world.existing.push("/r/store/demo-0.1.0".to_string());
    world.fail_release = true;
    world.install(pm.install(demo(Src::Path("/a".to_string()), None)));
    let errors = error_names(&world.events);
    assert_eq!(errors.len(), 2);
    assert!(errors[0].starts_with("IO"));
    assert_eq!(errors[1], "PackageAlreadyInstalled");
}

#[test]
fn failed_step_releases_the_store() {
    let pm = PackageManager::new_with_root("/r");
    let mut run = pm.install(demo(Src::Path("/a".to_string()), None));
    let _ = run.next(Outcome::Done);
    let action = run.next(Outcome::Failed(PackageManagerError::SetUID));
    assert!(matches!(action, Action::SetStoreImmutable(true)));
    assert!(matches!(run.next(Outcome::Done), Action::Send(Event::Error(PackageManagerError::SetUID))));
    assert!(matches!(run.next(Outcome::Done), Action::Finish));
}

#[test]
fn install_rejects_mismatched_outcome() {
    let pm = PackageManager::new_with_root("/r");
    let mut run = pm.install(demo(Src::Path("/a".to_string()), None));
    let _ = run.next(Outcome::Done);
    assert!(!run.accepts(&Outcome::Done));
    assert!(run.accepts(&Outcome::Flag(true)));
}

fn world_with_foo() -> World {
    let mut world = World::fresh();
    world.existing.push("/r/store/foo-1.0".to_string());
    world.set_file("/r/store/foo-1.0/links", "bin/foo\n\nlib/libfoo.so\n");
    world.existing.push("/r/store/foo-2.0".to_string());
    world.set_file("/r/store/foo-2.0/links", "bin/foo2\n");
    for p in ["/r/bin/foo", "/r/lib/libfoo.so", "/r/bin/foo2"] {
        world.existing.push(p.to_string());
    }
    world
}

#[test]
fn remove_missing_id_is_not_installed() {
    let pm = PackageManager::new_with_root("/r");
    let mut world = world_with_foo();
    world.remove(pm.remove("bar".to_string(), None));
    assert_eq!(error_names(&world.events), vec!["PackageNotInstalled".to_string()]);
    assert!(world.did("SetStoreImmutable(true)"));
}

#[test]
fn remove_missing_version_is_version_not_installed() {
    let pm = PackageManager::new_with_root("/r");
    let mut world = world_with_foo();
    world.remove(pm.remove("foo".to_string(), Some("3.0".to_string())));
    assert_eq!(error_names(&world.events), vec!["PackageVersionNotInstalled".to_string()]);
}

#[test]
fn remove_one_version_unlinks_and_records_garbage() {
    let pm = PackageManager::new_with_root("/r");
    let mut world = world_with_foo();
    world.remove(pm.remove("foo".to_string(), Some("1.0".to_string())));
    assert!(error_names(&world.events).is_empty());
    assert!(!world.existing.contains(&"/r/bin/foo".to_string()));
    assert!(!world.existing.contains(&"/r/lib/libfoo.so".to_string()));
    assert!(world.existing.contains(&"/r/bin/foo2".to_string()));
    assert!(world.file("/r/store/foo-1.0/links").is_none());
    assert!(world.existing.contains(&"/r/store/foo-1.0".to_string()));
    assert_eq!(world.file("/r/store/garbage").unwrap(), "/r/store/foo-1.0\n");
}

#[test]
fn remove_every_version() {
    let pm = PackageManager::new_with_root("/r");
    let mut world = world_with_foo();
    world.remove(pm.remove("foo".to_string(), None));
    assert!(error_names(&world.events).is_empty());
    for p in ["/r/bin/foo", "/r/lib/libfoo.so", "/r/bin/foo2"] {
        assert!(!world.existing.contains(&p.to_string()));
    }
    let garbage = world.file("/r/store/garbage").unwrap();
    assert_eq!(garbage, "/r/store/foo-1.0\n/r/store/foo-2.0\n");
    let listed = pm.garbage_entries(&garbage);
    assert_eq!(listed, vec!["/r/store/foo-1.0".to_string(), "/r/store/foo-2.0".to_string()]);
}

#[test]
fn remove_reports_a_failed_unlink() {
    let pm = PackageManager::new_with_root("/r");
    let mut world = world_with_foo();
    world.remove_path("/r/bin/foo");
    world.remove(pm.remove("foo".to_string(), Some("1.0".to_string())));
    let errors = error_names(&world.events);
    assert_eq!(errors.len(), 1);
    assert!(errors[0].starts_with("IO"));
    assert!(world.did("SetStoreImmutable(true)"));
}

#[test]
fn join_lines_separates_by_newline() {
    assert_eq!(join_lines(&vec![]), "");
    assert_eq!(join_lines(&vec!["a".to_string()]), "a");
    assert_eq!(join_lines(&vec!["a".to_string(), "b".to_string()]), "a\nb");
}

#[test]
fn garbage_collection_decisions() {
    assert!(PackageManager::should_collect(true, None));
    assert!(PackageManager::should_collect(true, Some("")));
    assert!(!PackageManager::should_collect(true, Some("bin/x\n")));
    assert!(!PackageManager::should_collect(false, None));
    assert!(PackageManager::is_dead_link(true, false));
    assert!(!PackageManager::is_dead_link(true, true));
    assert!(!PackageManager::is_dead_link(false, false));
    let pm = PackageManager::new_with_root("/r");
    assert_eq!(pm.link_dirs(), vec!["/r/bin".to_string(), "/r/lib".to_string()]);
    assert_eq!(PackageManager::entry_links_file("/r/store/a-1"), "/r/store/a-1/links");
    assert_eq!(pm.garbage_entries("/abs/x\n\nrel/y\n"), vec!["/abs/x".to_string(), "/r/rel/y".to_string()]);
}

#[test]
fn garbage_collection_twice_deletes_nothing_new() {
    let pm = PackageManager::new_with_root("/r");
    let mut world = world_with_foo();
    world.remove(pm.remove("foo".to_string(), Some("1.0".to_string())));
    world.existing.push("/r/store/kept-1".to_string());
    world.set_file("/r/store/kept-1/links", "bin/kept\n");
    let g = world.file("/r/store/garbage").unwrap();
    world.set_file("/r/store/garbage", &format!("{g}/r/store/kept-1\n"));
    let mut deleted = vec![];
    for _ in 0..2 {
        let text = world.file("/r/store/garbage").unwrap();
        for entry in pm.garbage_entries(&text) {
            let exists = world.existing.contains(&entry);
            let links = world.file(&PackageManager::entry_links_file(&entry));
            if PackageManager::should_collect(exists, links.as_deref()) {
                world.remove_path(&entry);
                deleted.push(entry);
            }
        }
    }
    assert_eq!(deleted, vec!["/r/store/foo-1.0".to_string()]);
    assert!(world.existing.contains(&"/r/store/kept-1".to_string()));
}
