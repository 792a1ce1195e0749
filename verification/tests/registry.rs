use keiros::features::{list_registered_features, register_module_decl};
use keiros::text::{find_sub, join_strings, split_string, trim_string};

#[test]
fn register_appends_missing_declaration() {
    let (out, changed) = register_module_decl("pub mod http;\n", "socket");
    assert!(changed);
    assert_eq!(out, "pub mod http;\npub mod socket;\n");
}

#[test]
fn register_keeps_present_declaration() {
    let (out, changed) = register_module_decl("pub mod http;\n", "http");
    assert!(!changed);
    assert_eq!(out, "pub mod http;\n");
}

#[test]
fn listing_reads_registered_names() {
    let content = "// registry\npub mod http;\n  pub mod socket;\nfn helper() {}\n";
    let names = list_registered_features(content);
    assert_eq!(names, vec!["http".to_string(), "socket".to_string()]);
}

#[test]
fn listing_ignores_malformed_lines() {
    let content = "pub mod ;\npub mod x\npub mod ok;\n";
    let names = list_registered_features(content);
    assert_eq!(names, vec!["ok".to_string()]);
}

#[test]
fn registration_round_trip() {
    let (out, _) = register_module_decl("", "report_result");
    let names = list_registered_features(&out);
    assert_eq!(names, vec!["report_result".to_string()]);
}

#[test]
fn split_and_join_invert_each_other() {
    let parts = split_string("a\nb\n\nc", '\n');
    assert_eq!(
        parts,
        vec!["a".to_string(), "b".to_string(), String::new(), "c".to_string()]
    );
    assert_eq!(join_strings(&parts, "\n"), "a\nb\n\nc");
}

#[test]
fn trim_removes_surrounding_whitespace_only() {
    assert_eq!(trim_string(" \t a b \r\n"), "a b");
    assert_eq!(trim_string(""), "");
    assert_eq!(trim_string("   "), "");
}

#[test]
fn trim_covers_unicode_whitespace() {
    // the same set str::trim removes
    assert_eq!(trim_string("\u{000B}\u{000C}x\u{00A0}\u{2028}"), "x");
    assert_eq!(trim_string("\u{3000}linux_agent\u{2009}"), "linux_agent");
    assert_eq!(" \u{000B}name ".trim(), trim_string(" \u{000B}name "));
}

#[test]
fn find_sub_reports_first_occurrence() {
    assert_eq!(find_sub("abcabc", "bc"), Some(1));
    assert_eq!(find_sub("abc", "d"), None);
    assert_eq!(find_sub("abc", ""), Some(0));
}
