use keiros::patcher::{declare_features_mod, patch_entry_source, PatchError};

const UNPATCHED: &str = "use std::env;\n\nfn main() {\n    println!(\"agent\");\n}\n";

const MODULE_DECLARED: &str =
    "mod feature_loader;\nuse feature_loader::init_features;\n\nfn main() {\n    println!(\"agent\");\n}\n";

#[test]
fn patch_unpatched_exact_output() {
    let (out, changed) = patch_entry_source(UNPATCHED).unwrap();
    assert!(changed);
    let expected = "use std::env;\n\n\n// AUTO-GENERATED\nmod feature_loader;\nuse feature_loader::init_features;\nfn main() {\n    init_features();\n    println!(\"agent\");\n}\n";
    assert_eq!(out, expected);
}

#[test]
fn patch_is_idempotent() {
    let (once, _) = patch_entry_source(UNPATCHED).unwrap();
    let (twice, changed) = patch_entry_source(&once).unwrap();
    assert!(!changed);
    assert_eq!(once, twice);
}

#[test]
fn patch_converges_from_unpatched() {
    let (out, _) = patch_entry_source(UNPATCHED).unwrap();
    assert!(out.contains("init_features();"));
    assert!(out.contains("use feature_loader::init_features;"));
}

#[test]
fn patch_converges_from_module_declared() {
    let (out, changed) = patch_entry_source(MODULE_DECLARED).unwrap();
    assert!(changed);
    assert!(out.contains("init_features();"));
    assert!(out.contains("use feature_loader::init_features;"));
    // the already present declaration is not duplicated
    assert!(!out.contains("// AUTO-GENERATED"));
}

#[test]
fn patch_converges_from_fully_patched() {
    let (once, _) = patch_entry_source(UNPATCHED).unwrap();
    let (again, changed) = patch_entry_source(&once).unwrap();
    assert!(!changed);
    assert!(again.contains("init_features();"));
    assert!(again.contains("use feature_loader::init_features;"));
}

#[test]
fn patch_fails_without_entry_function() {
    let r = patch_entry_source("pub fn helper() {}\n");
    assert!(matches!(r, Err(PatchError::EntryFunctionNotFound)));
}

#[test]
fn patch_matches_spaced_signature() {
    let src = "fn  main ( ) {\n}\n";
    let (out, changed) = patch_entry_source(src).unwrap();
    assert!(changed);
    assert!(out.contains("fn  main ( ) {\n    init_features();"));
}

#[test]
fn patch_leaves_call_only_text_unchanged() {
    // the call already present is the idempotence guard, whatever else holds
    let src = "fn start() {\n    init_features();\n}\n";
    let (out, changed) = patch_entry_source(src).unwrap();
    assert!(!changed);
    assert_eq!(out, src);
}

#[test]
fn patch_error_message() {
    let r = patch_entry_source("pub fn helper() {}\n");
    let e = r.err().unwrap();
    assert_eq!(e.message(), "entry function not found in entry-point file");
}

#[test]
fn declare_features_inserts_before_entry_line() {
    let src = "use std::env;\nfn main() {\n}\n";
    let (out, changed) = declare_features_mod(src);
    assert!(changed);
    assert_eq!(out, "use std::env;\nmod features;\nfn main() {\n}\n");
}

#[test]
fn declare_features_is_a_no_op_when_present() {
    let src = "mod features;\nfn main() {\n}\n";
    let (out, changed) = declare_features_mod(src);
    assert!(!changed);
    assert_eq!(out, src);
}

#[test]
fn declare_features_inserts_at_top_without_entry_line() {
    let src = "use std::env;\n";
    let (out, changed) = declare_features_mod(src);
    assert!(changed);
    assert_eq!(out, "mod features;\nuse std::env;\n");
}

#[test]
fn declare_features_honours_indented_entry_line() {
    let src = "use std::env;\n    fn main() {\n}\n";
    let (out, _) = declare_features_mod(src);
    assert_eq!(out, "use std::env;\nmod features;\n    fn main() {\n}\n");
}
