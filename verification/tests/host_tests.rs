use preview_core::date::today;
use preview_core::host::{
    file_id_eq, not_found_message, package_prefix, parent_dir, resolve_package_path, EditorWorld,
    FileIdModel, PackageSpecModel,
};

fn local_id(vpath: &str) -> FileIdModel {
    FileIdModel { package: None, vpath: vpath.to_string() }
}

fn pkg_id(vpath: &str) -> FileIdModel {
    FileIdModel {
        package: Some(PackageSpecModel {
            namespace: "preview".to_string(),
            name: "cetz".to_string(),
            major: 0,
            minor: 2,
            patch: 1,
        }),
        vpath: vpath.to_string(),
    }
}

#[test]
fn new_world_from_path() {
    let w = EditorWorld::new("= Title", Some("/docs/paper/report.typ"));
    assert_eq!(w.main_vpath, "report.typ");
    assert_eq!(w.root_dir.as_deref(), Some("/docs/paper"));
    assert_eq!(w.source, "= Title");
}

#[test]
fn new_world_without_path() {
    let w = EditorWorld::new("x", None);
    assert_eq!(w.main_vpath, "main.typ");
    assert!(w.root_dir.is_none());
}

#[test]
fn new_world_bare_file_name() {
    let w = EditorWorld::new("x", Some("report.typ"));
    assert_eq!(w.main_vpath, "report.typ");
    assert_eq!(w.root_dir.as_deref(), Some(""));
}

#[test]
fn new_world_trailing_slash() {
    let w = EditorWorld::new("x", Some("/docs/"));
    assert_eq!(w.main_vpath, "main.typ");
    assert_eq!(w.root_dir.as_deref(), Some("/docs"));
}

#[test]
fn update_source_replaces_buffer() {
    let mut w = EditorWorld::new("old", None);
    w.update_source("new", None);
    assert_eq!(w.snapshot_source(), "new");
    assert!(w.root_dir.is_none());
}

#[test]
fn path_change_recomputes_root_and_clears_cache() {
    let mut w = EditorWorld::new("x", Some("/a/main.typ"));
    w.store_source(local_id("helper.typ"), "#let x = 1".to_string());
    assert!(w.lookup_source(&local_id("helper.typ")).is_some());
    w.update_source("x", Some("/b/other.typ"));
    assert_eq!(w.root_dir.as_deref(), Some("/b"));
    assert!(w.lookup_source(&local_id("helper.typ")).is_none());
    // without a path the cache survives
    let mut w2 = EditorWorld::new("x", Some("/a/main.typ"));
    w2.store_source(local_id("helper.typ"), "#let x = 1".to_string());
    w2.update_source("y", None);
    assert_eq!(w2.lookup_source(&local_id("helper.typ")).as_deref(), Some("#let x = 1"));
}

#[test]
fn main_id_reads_live_buffer() {
    let w = EditorWorld::new("= Hi", Some("/a/main.typ"));
    assert_eq!(w.lookup_source(&local_id("main.typ")).as_deref(), Some("= Hi"));
    assert!(w.lookup_source(&local_id("other.typ")).is_none());
}

#[test]
fn store_replaces_existing_entry() {
    let mut w = EditorWorld::new("x", None);
    w.store_source(local_id("a.typ"), "v1".to_string());
    w.store_source(local_id("a.typ"), "v2".to_string());
    assert_eq!(w.lookup_source(&local_id("a.typ")).as_deref(), Some("v2"));
}

#[test]
fn resolve_path_rules() {
    let w = EditorWorld::new("x", Some("/root/main.typ"));
    assert_eq!(w.resolve_path(&local_id("sub/a.typ"), "/cwd").as_deref(), Some("/root/sub/a.typ"));
    assert_eq!(w.resolve_path(&local_id("@preview/x"), "/cwd"), None);
    let w2 = EditorWorld::new("x", None);
    assert_eq!(w2.resolve_path(&local_id("a.typ"), "/cwd").as_deref(), Some("/cwd/a.typ"));
    assert_eq!(w2.resolve_path(&local_id("/abs/a.typ"), "/cwd").as_deref(), Some("/abs/a.typ"));
}

#[test]
fn package_prefix_exact() {
    let ps = PackageSpecModel {
        namespace: "preview".to_string(),
        name: "cetz".to_string(),
        major: 0,
        minor: 2,
        patch: 1,
    };
    assert_eq!(package_prefix(&ps), "@preview/cetz:0.2.1/");
}

#[test]
fn package_path_strips_prefix() {
    let id = pkg_id("@preview/cetz:0.2.1/src/lib.typ");
    assert_eq!(
        resolve_package_path(&id, "/store/cetz-0.2.1").as_deref(),
        Some("/store/cetz-0.2.1/src/lib.typ")
    );
}

#[test]
fn package_path_fallback_trims_sigils() {
    let id = pkg_id("@odd/layout.typ");
    assert_eq!(
        resolve_package_path(&id, "/store/cetz-0.2.1").as_deref(),
        Some("/store/cetz-0.2.1/odd/layout.typ")
    );
    assert_eq!(resolve_package_path(&local_id("a.typ"), "/store"), None);
}

#[test]
fn not_found_messages() {
    let id = pkg_id("@preview/cetz:0.2.1/lib.typ");
    assert_eq!(
        not_found_message(&id),
        "Package not found: cetz (0.2.1). Check internet connection."
    );
    assert_eq!(not_found_message(&local_id("missing.typ")), "missing.typ");
}

#[test]
fn file_id_equality() {
    assert!(file_id_eq(&local_id("a.typ"), &local_id("a.typ")));
    assert!(!file_id_eq(&local_id("a.typ"), &local_id("b.typ")));
    assert!(!file_id_eq(&local_id("@preview/cetz:0.2.1/lib.typ"), &pkg_id("@preview/cetz:0.2.1/lib.typ")));
    assert!(file_id_eq(&pkg_id("x"), &pkg_id("x")));
}

#[test]
fn parent_dir_edges() {
    assert_eq!(parent_dir("/a/b/c.typ"), "/a/b");
    assert_eq!(parent_dir("c.typ"), "");
    assert_eq!(parent_dir("/c.typ"), "");
}

/// The clock answers a valid calendar date; an offset beyond a day's
/// worth of hours overflows to none.
#[test]
fn today_ranges_and_overflow() {
    let d = today(None).unwrap();
    assert!((1..=12).contains(&d.month));
    assert!((1..=31).contains(&d.day));
    assert!(today(Some(0)).is_some());
    assert!(today(Some(23)).is_some());
    assert!(today(Some(-23)).is_some());
    assert!(today(Some(24)).is_none());
    assert!(today(Some(-24)).is_none());
    assert!(today(Some(i64::MAX)).is_none());
}
