use ariana::collector::{collect_items, WalkEntry};

fn entry(path: &str, is_dir: bool, ignored: bool, size: u64) -> WalkEntry {
    WalkEntry { path: path.to_string(), is_dir, ignored, size }
}

#[test]
fn partitions_a_small_walk() {
    let entries = vec![
        entry("/p/src", true, false, 0),
        entry("/p/src/a.js", false, false, 200),
        entry("/p/src/style.css", false, false, 100),
        entry("/p/assets", true, false, 0),
        entry("/p/.git", true, false, 0),
    ];
    let items = collect_items(&entries, "/p", "/p/.ariana");

    let instr: Vec<&str> = items.files_to_instrument.iter().map(|p| p.0.as_str()).collect();
    let plain: Vec<&str> = items.files_to_link_or_copy.iter().map(|p| p.0.as_str()).collect();
    let dirs: Vec<&str> = items.directories_to_link_or_copy.iter().map(|p| p.0.as_str()).collect();

    assert_eq!(instr, vec!["/p/src/a.js"]);
    assert_eq!(plain, vec!["/p/src/style.css"]);
    // `/p/src` holds walked files, so only the leaf directory is mirrored;
    // `.git` is never mirrored.
    assert_eq!(dirs, vec!["/p/assets"]);

    assert_eq!(items.files_to_instrument[0].1, "/p/.ariana/src/a.js");
    assert_eq!(items.files_to_link_or_copy[0].1, "/p/.ariana/src/style.css");
    assert_eq!(items.directories_to_link_or_copy[0].1, "/p/.ariana/assets");
}

#[test]
fn ignored_files_are_demoted_to_plain_mirroring() {
    let entries = vec![
        entry("/p/gen", true, false, 0),
        entry("/p/gen/out.js", false, true, 50),
    ];
    let items = collect_items(&entries, "/p", "/p/.ariana");
    assert!(items.files_to_instrument.is_empty());
    assert_eq!(items.files_to_link_or_copy.len(), 1);
    assert_eq!(items.files_to_link_or_copy[0].0, "/p/gen/out.js");
}

#[test]
fn oversized_files_are_not_instrumented() {
    let entries = vec![entry("/p/big.js", false, false, 4 * 1024 * 1024)];
    let items = collect_items(&entries, "/p", "/p/.ariana");
    assert!(items.files_to_instrument.is_empty());
    assert_eq!(items.files_to_link_or_copy.len(), 1);
}

#[test]
fn collected_sets_are_pairwise_disjoint() {
    let entries = vec![
        entry("/p/src", true, false, 0),
        entry("/p/src/a.js", false, false, 10),
        entry("/p/src/b.py", false, false, 10),
        entry("/p/doc.txt", false, false, 10),
        entry("/p/vendor", true, false, 0),
    ];
    let items = collect_items(&entries, "/p", "/p/.ariana");
    let mut all: Vec<String> = Vec::new();
    for (src, _) in items
        .files_to_instrument
        .iter()
        .chain(items.files_to_link_or_copy.iter())
        .chain(items.directories_to_link_or_copy.iter())
    {
        assert!(!all.contains(src), "{} classified twice", src);
        all.push(src.clone());
    }
    assert_eq!(all.len(), 4);
}
