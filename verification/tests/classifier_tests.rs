use ariana::classifier::{
    should_copy_not_link, should_copy_or_link_directory, should_explore_directory,
    should_instrument_file,
};
use ariana::paths::{compute_dest_path, extension_of, is_path_ancestor, last_component};

#[test]
fn explore_rejects_the_skip_list() {
    for name in [
        "node_modules",
        ".git",
        ".ariana",
        "dist",
        "build",
        "target",
        ".ariana_saved_traces",
        ".traces",
        "venv",
        "site-packages",
        "__pycache__",
        ".ariana-saved-traces",
    ] {
        assert!(!should_explore_directory(name), "{} must be skipped", name);
    }
}

#[test]
fn explore_rejects_dotted_and_underscored_names() {
    assert!(!should_explore_directory("my.dir"));
    assert!(!should_explore_directory("_private"));
    assert!(should_explore_directory("src"));
    assert!(should_explore_directory("lib"));
}

#[test]
fn mirror_rejects_harness_directories() {
    for name in [".git", ".ariana", ".ariana_saved_traces", ".traces", ".ariana-saved-traces"] {
        assert!(!should_copy_or_link_directory(name));
    }
    assert!(should_copy_or_link_directory("node_modules"));
    assert!(should_copy_or_link_directory("src"));
}

#[test]
fn instrumentable_by_extension_size_and_suffix() {
    assert!(should_instrument_file("a.js", Some("js"), 200));
    assert!(should_instrument_file("a.PY", Some("PY"), 200));
    assert!(should_instrument_file("a.tsx", Some("tsx"), 200));
    assert!(!should_instrument_file("a.txt", Some("txt"), 200));
    assert!(!should_instrument_file("a", None, 200));
    assert!(!should_instrument_file("a.js", Some("js"), 4 * 1024 * 1024));
    assert!(should_instrument_file("a.js", Some("js"), 4 * 1024 * 1024 - 1));
    assert!(!should_instrument_file("webpack.config.js", Some("js"), 200));
    assert!(!should_instrument_file("vite.config.ts", Some("ts"), 200));
}

#[test]
fn copy_not_link_extensions() {
    for ext in ["html", "htm", "css", "sass", "scss", "vue", "svelte", "CSS"] {
        assert!(should_copy_not_link(Some(ext)), "{} must be copied", ext);
    }
    assert!(!should_copy_not_link(Some("js")));
    assert!(!should_copy_not_link(None));
}

#[test]
fn classifier_is_pure() {
    for _ in 0..3 {
        assert!(should_explore_directory("src"));
        assert!(!should_explore_directory("node_modules"));
        assert!(should_instrument_file("a.js", Some("js"), 200));
    }
}

#[test]
fn path_components_and_extensions() {
    assert_eq!(last_component("/a/b/c.js"), "c.js");
    assert_eq!(last_component("c.js"), "c.js");
    assert_eq!(extension_of("a.tar.gz"), Some("gz".to_string()));
    assert_eq!(extension_of(".hidden"), None);
    assert_eq!(extension_of("name"), None);
    assert_eq!(extension_of("a."), Some("".to_string()));
}

#[test]
fn ancestors_and_destinations() {
    assert!(is_path_ancestor("/p", "/p/src/a.js"));
    assert!(!is_path_ancestor("/p", "/project/a.js"));
    assert!(!is_path_ancestor("/p/src/a.js", "/p"));
    assert!(!is_path_ancestor("/p", "/p"));
    assert_eq!(
        compute_dest_path("/p/src/a.js", "/p", "/p/.ariana"),
        "/p/.ariana/src/a.js",
    );
}
