use keiros::compiler::{compile_plan, parse_keep_list, select_images_for_removal, CompilePlan};
use keiros::feature_map::{generate_feature_map_from_vec, FeatureEntry, FeatureMap};
use keiros::loader::{generate_loader_for, generate_loader_source, LoaderError};
use keiros::profile::{apply_listener_override, BuildProfile};
use keiros::scanner::{scan_features, ScannedFile};

fn strings(names: &[&str]) -> Vec<String> {
    names.iter().map(|s| s.to_string()).collect()
}

#[test]
fn map_synthesis_two_entries() {
    let names = strings(&["register_agent", "report_result"]);
    let map = generate_feature_map_from_vec(&names);
    assert_eq!(map.len(), 2);
    let a = map.get("register_agent").unwrap();
    assert_eq!(a.path, "register_agent");
    assert_eq!(a.call, Some("init()".to_string()));
    let b = map.get("report_result").unwrap();
    assert_eq!(b.path, "report_result");
    assert_eq!(b.call, Some("init()".to_string()));
}

#[test]
fn map_insert_replaces_existing_binding() {
    let mut map = FeatureMap::new();
    map.insert(
        "http".to_string(),
        FeatureEntry { path: "a".to_string(), call: None },
    );
    map.insert(
        "http".to_string(),
        FeatureEntry { path: "b".to_string(), call: Some("init()".to_string()) },
    );
    assert_eq!(map.len(), 1);
    let e = map.get("http").unwrap();
    assert_eq!(e.path, "b");
    assert_eq!(e.call, Some("init()".to_string()));
}

#[test]
fn map_get_missing_name() {
    let map = generate_feature_map_from_vec(&strings(&["http"]));
    assert!(map.get("socket").is_none());
}

#[test]
fn loader_generation_is_deterministic() {
    let map = generate_feature_map_from_vec(&strings(&["register_agent", "http"]));
    let once = generate_loader_source(&map);
    let twice = generate_loader_source(&map);
    assert_eq!(once, twice);
}

#[test]
fn loader_source_exact_output() {
    let map = generate_feature_map_from_vec(&strings(&["register_agent"]));
    let src = generate_loader_source(&map);
    let expected = "use crate::features::register_agent;\n\npub fn init_features() {\n    crate::features::register_agent::init();\n}\n";
    assert_eq!(src, expected);
}

#[test]
fn loader_skips_call_for_passive_module() {
    let mut map = FeatureMap::new();
    map.insert(
        "passive".to_string(),
        FeatureEntry { path: "passive".to_string(), call: None },
    );
    let src = generate_loader_source(&map);
    let expected = "use crate::features::passive;\n\npub fn init_features() {\n}\n";
    assert_eq!(src, expected);
}

#[test]
fn loader_generation_fails_on_unresolvable_feature() {
    let map = generate_feature_map_from_vec(&strings(&["register_agent"]));
    let enabled = strings(&["register_agent", "report_result"]);
    let r = generate_loader_for(&map, &enabled);
    assert_eq!(r, Err(LoaderError::UnresolvedFeature("report_result".to_string())));
}

#[test]
fn loader_generation_fails_on_conflicting_paths() {
    let mut map = FeatureMap::new();
    map.insert(
        "alpha".to_string(),
        FeatureEntry { path: "shared".to_string(), call: None },
    );
    map.insert(
        "beta".to_string(),
        FeatureEntry { path: "shared".to_string(), call: Some("init()".to_string()) },
    );
    let enabled = strings(&["alpha", "beta"]);
    let r = generate_loader_for(&map, &enabled);
    assert_eq!(r, Err(LoaderError::ConflictingPath("shared".to_string())));
}

#[test]
fn loader_generation_succeeds_when_all_resolve() {
    let map = generate_feature_map_from_vec(&strings(&["register_agent", "report_result"]));
    let enabled = strings(&["report_result"]);
    let src = generate_loader_for(&map, &enabled).unwrap();
    assert!(src.contains("use crate::features::report_result;\n"));
    assert!(!src.contains("register_agent"));
}

#[test]
fn scanner_detects_initialization_marker() {
    let files = vec![
        ScannedFile {
            segments: strings(&["features", "http"]),
            content: "pub fn init() {}\n".to_string(),
        },
        ScannedFile {
            segments: strings(&["features", "passive"]),
            content: "pub fn helper() {}\n".to_string(),
        },
    ];
    let map = scan_features(&files);
    assert_eq!(map.len(), 2);
    let h = map.get("http").unwrap();
    assert_eq!(h.path, "features::http");
    assert_eq!(h.call, Some("init()".to_string()));
    let p = map.get("passive").unwrap();
    assert_eq!(p.path, "features::passive");
    assert_eq!(p.call, None);
}

#[test]
fn scanner_keys_by_base_name_last_write_wins() {
    let files = vec![
        ScannedFile {
            segments: strings(&["a", "dup"]),
            content: String::new(),
        },
        ScannedFile {
            segments: strings(&["b", "dup"]),
            content: "pub fn init".to_string(),
        },
    ];
    let map = scan_features(&files);
    assert_eq!(map.len(), 1);
    let e = map.get("dup").unwrap();
    assert_eq!(e.path, "b::dup");
    assert_eq!(e.call, Some("init()".to_string()));
}

#[test]
fn scanner_detection_is_textual_not_structural() {
    // the documented limitation: the marker counts even inside a comment
    let files = vec![ScannedFile {
        segments: strings(&["noted"]),
        content: "// pub fn init is not exported here\n".to_string(),
    }];
    let map = scan_features(&files);
    assert_eq!(map.get("noted").unwrap().call, Some("init()".to_string()));
}

#[test]
fn scanner_of_no_files_yields_empty_map() {
    let map = scan_features(&Vec::new());
    assert_eq!(map.len(), 0);
}

#[test]
fn listener_override_replaces_listener_features() {
    let mut features = strings(&["http", "execute_command"]);
    apply_listener_override(&mut features, "socket".to_string());
    assert_eq!(features, strings(&["execute_command", "socket"]));
}

#[test]
fn listener_override_removes_both_listener_kinds() {
    let mut features = strings(&["http", "socket", "report_result"]);
    apply_listener_override(&mut features, "http".to_string());
    assert_eq!(features, strings(&["report_result", "http"]));
}

#[test]
fn build_args_apply_defaults() {
    let profile = BuildProfile {
        name: "  linux_agent \n".to_string(),
        target: None,
        release: None,
        strip: None,
        enabled_features: strings(&["register_agent", "http"]),
    };
    let args = profile.build_args();
    assert_eq!(args.profile, "linux_agent");
    assert_eq!(args.target, "x86_64-unknown-linux-musl");
    assert_eq!(args.release, "false");
    assert_eq!(args.strip, "false");
    assert_eq!(args.features, "register_agent,http");
}

#[test]
fn build_args_take_profile_values() {
    let profile = BuildProfile {
        name: "windows_agent".to_string(),
        target: Some("x86_64-pc-windows-gnu".to_string()),
        release: Some(true),
        strip: Some(true),
        enabled_features: Vec::new(),
    };
    let args = profile.build_args();
    assert_eq!(args.target, "x86_64-pc-windows-gnu");
    assert_eq!(args.release, "true");
    assert_eq!(args.strip, "true");
    assert_eq!(args.features, "");
}

#[test]
fn compile_plan_cases() {
    assert_eq!(compile_plan(false, false), CompilePlan::EngineUnavailable);
    assert_eq!(compile_plan(false, true), CompilePlan::EngineUnavailable);
    assert_eq!(compile_plan(true, false), CompilePlan::BuildImageThenRun);
    assert_eq!(compile_plan(true, true), CompilePlan::RunOnly);
}

#[test]
fn fixed_names_and_defaults() {
    assert_eq!(keiros::compiler::builder_image_name(), "keiros-builder");
    assert_eq!(keiros::profile::default_target(), "x86_64-unknown-linux-musl");
    assert_eq!(keiros::feature_map::init_call_string(), "init()");
    assert!(keiros::profile::is_listener("http"));
    assert!(keiros::profile::is_listener("socket"));
    assert!(!keiros::profile::is_listener("execute_command"));
}

#[test]
fn keep_list_parsing_trims_and_drops_empty() {
    let keeps = parse_keep_list("keiros-builder, keiros-x , ,");
    assert_eq!(keeps, strings(&["keiros-builder", "keiros-x"]));
}

#[test]
fn image_selection_honours_prefix_and_keep_list() {
    let images = strings(&["keiros-builder", "ubuntu", "keiros-old", "keirosless"]);
    let keeps = strings(&["keiros-builder"]);
    let doomed = select_images_for_removal(&images, &keeps);
    assert_eq!(doomed, strings(&["keiros-old"]));
}
