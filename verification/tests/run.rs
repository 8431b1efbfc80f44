use l10n_sync::catalog::{Catalog, MergeOutcome, SrcInfo};
use l10n_sync::collect::is_descriptor;
use l10n_sync::generator::{Exit, InvokeError};
use l10n_sync::locate::{catalog_path, get_tree};
use l10n_sync::run::{Run, RunError};
use l10n_sync::walk::WalkEntry;

fn dir(path: &str, file_name: &str) -> WalkEntry {
    WalkEntry { path: path.to_string(), file_name: file_name.to_string(), depth: 2, is_file: false }
}

fn info(pkgname: &str, pkgdes: &str) -> SrcInfo {
    SrcInfo { pkgname: pkgname.to_string(), pkgdes: pkgdes.to_string() }
}

fn ok() -> Exit {
    Exit::Ended { success: true, code: Some(0) }
}

fn failed(code: i32) -> Exit {
    Exit::Ended { success: false, code: Some(code) }
}

fn names(list: &[&str]) -> Vec<String> {
    list.iter().map(|name| name.to_string()).collect()
}

#[test]
fn run_without_names_is_a_full_scan() {
    assert!(!Run::new(Vec::new(), Catalog::new()).is_filtered());
    assert!(Run::new(names(&["pkg1"]), Catalog::new()).is_filtered());
}

#[test]
fn full_scan_of_an_empty_tree_succeeds() {
    let run = Run::new(Vec::new(), Catalog::new());
    let (catalog, clean) = run.finish().unwrap();
    assert!(clean);
    assert!(catalog.pairs().is_empty());
}

#[test]
fn full_scan_selects_every_package_directory() {
    let mut run = Run::new(Vec::new(), Catalog::new());
    assert!(run.visit(&dir("/t/cat/pkg1", "pkg1")));
    assert!(run.visit(&dir("/t/dog/pkg2", "pkg2")));
    assert!(!run.visit(&dir("/t/assets/pkg3", "pkg3")));
    assert!(!run.visit(&dir("/t/cat/groups", "groups")));
    assert!(!run.visit(&dir("/t/.git/objects", "objects")));
    let mut file = dir("/t/cat/notes", "notes");
    file.is_file = true;
    assert!(!run.visit(&file));
}

#[test]
fn one_requested_name_of_three_is_enough() {
    let mut run = Run::new(names(&["A", "B", "C"]), Catalog::new());
    assert!(!run.visit(&dir("/t/cat/X", "X")));
    assert!(run.visit(&dir("/t/cat/A", "A")));
    assert_eq!(run.invoked(ok()), Ok(()));
    assert_eq!(run.absorb(info("A", "Package A")), MergeOutcome::Inserted);
    assert!(!run.visit(&dir("/t/cat/Y", "Y")));
    let (catalog, clean) = run.finish().unwrap();
    assert!(clean);
    assert_eq!(catalog.pairs(), &vec![("A".to_string(), "Package A".to_string())]);
}

#[test]
fn no_requested_name_found_fails_without_a_catalog() {
    let before = Catalog::from_pairs(vec![("old".to_string(), "Old".to_string())]);
    let mut run = Run::new(names(&["X"]), before);
    assert!(!run.visit(&dir("/t/cat/pkg1", "pkg1")));
    assert!(!run.visit(&dir("/t/cat/pkg2", "pkg2")));
    assert_eq!(run.finish().unwrap_err(), RunError::NoMatch(names(&["X"])));
}

#[test]
fn requested_name_in_an_excluded_path_does_not_count() {
    let mut run = Run::new(names(&["X"]), Catalog::new());
    assert!(!run.visit(&dir("/t/assets/X", "X")));
    assert_eq!(run.finish().unwrap_err(), RunError::NoMatch(names(&["X"])));
}

#[test]
fn no_requested_name_at_all_in_an_empty_tree_fails() {
    let run = Run::new(names(&["X", "Y"]), Catalog::new());
    assert_eq!(run.finish().unwrap_err(), RunError::NoMatch(names(&["X", "Y"])));
}

#[test]
fn failed_call_is_kept_and_the_run_goes_on() {
    let mut run = Run::new(Vec::new(), Catalog::new());

    assert!(run.visit(&dir("/t/cat/one", "one")));
    assert_eq!(run.invoked(ok()), Ok(()));
    assert_eq!(run.absorb(info("one", "First")), MergeOutcome::Inserted);

    assert!(run.visit(&dir("/t/cat/two", "two")));
    assert_eq!(run.invoked(failed(2)), Err(InvokeError::NonZero(2)));

    assert!(run.visit(&dir("/t/cat/three", "three")));
    assert_eq!(run.invoked(ok()), Ok(()));
    assert_eq!(run.absorb(info("three", "Third")), MergeOutcome::Inserted);

    let (catalog, clean) = run.finish().unwrap();
    assert!(!clean);
    assert_eq!(
        catalog.to_json().unwrap(),
        br#"{"one":"First","three":"Third"}"#.to_vec()
    );
}

#[test]
fn generator_that_does_not_start_counts_as_a_failed_call() {
    let mut run = Run::new(Vec::new(), Catalog::new());
    assert!(run.visit(&dir("/t/cat/one", "one")));
    assert_eq!(run.invoked(Exit::NotLaunched), Err(InvokeError::NotLaunched));
    let (_, clean) = run.finish().unwrap();
    assert!(!clean);
}

#[test]
fn later_success_does_not_undo_a_failure() {
    let mut run = Run::new(Vec::new(), Catalog::new());
    assert!(run.invoked(failed(1)).is_err());
    assert!(run.invoked(ok()).is_ok());
    let (_, clean) = run.finish().unwrap();
    assert!(!clean);
}

#[test]
fn requested_package_whose_call_fails_still_counts_as_found() {
    let mut run = Run::new(names(&["A"]), Catalog::from_pairs(vec![("k".to_string(), "v".to_string())]));
    assert!(run.visit(&dir("/t/cat/A", "A")));
    assert!(run.invoked(failed(1)).is_err());
    let (catalog, clean) = run.finish().unwrap();
    assert!(!clean);
    assert_eq!(catalog.pairs(), &vec![("k".to_string(), "v".to_string())]);
}

#[test]
fn descriptor_is_used_up_whatever_the_merge_did() {
    let mut run = Run::new(Vec::new(), Catalog::from_pairs(vec![("foo".to_string(), "bar".to_string())]));
    assert_eq!(run.absorb(info("foo", "bar")), MergeOutcome::Unchanged);
    assert_eq!(run.absorb(info("foo", "new")), MergeOutcome::Updated);
    assert_eq!(run.absorb(info("baz", "qux")), MergeOutcome::Inserted);
    assert_eq!(run.catalog().get(&"foo".to_string()), Some(&"new".to_string()));
    assert_eq!(run.catalog().get(&"baz".to_string()), Some(&"qux".to_string()));
}

#[test]
fn whole_run_over_one_package() {
    // The tree: /t/groups/, /t/l10n/en.json = {}, /t/cat/pkg1/meta.json.
    let tree = get_tree("/t/cat/pkg1", |path: &str| path == "/t/groups").unwrap();
    assert_eq!(tree, "/t");
    assert_eq!(catalog_path(&tree), "/t/l10n/en.json");
    let catalog = Catalog::parse(b"{}").unwrap();

    let mut run = Run::new(Vec::new(), catalog);
    let mut groups = dir("/t/groups/base", "base");
    groups.is_file = true;
    assert!(!run.visit(&groups));
    let mut en_json = dir("/t/l10n/en.json", "en.json");
    en_json.is_file = true;
    assert!(!run.visit(&en_json));
    assert!(run.visit(&dir("/t/cat/pkg1", "pkg1")));
    assert_eq!(run.invoked(ok()), Ok(()));

    let mut removed: Vec<String> = Vec::new();
    for child in ["autobuild", "spec", "meta.json"] {
        if is_descriptor(child) {
            let parsed: serde_json::Value =
                serde_json::from_str(r#"{"PKGNAME":"pkg1","PKGDES":"Pkg One"}"#).unwrap();
            let descriptor = SrcInfo {
                pkgname: parsed["PKGNAME"].as_str().unwrap().to_string(),
                pkgdes: parsed["PKGDES"].as_str().unwrap().to_string(),
            };
            assert_eq!(run.absorb(descriptor), MergeOutcome::Inserted);
            removed.push(child.to_string());
        }
    }
    assert_eq!(removed, vec!["meta.json".to_string()]);

    let (catalog, clean) = run.finish().unwrap();
    assert!(clean);
    assert_eq!(catalog.to_json().unwrap(), br#"{"pkg1":"Pkg One"}"#.to_vec());
}
