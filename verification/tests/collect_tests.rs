use rustifacts::Collector;
use rustifacts::Config;

fn path(parts: &[&str]) -> Vec<String> {
    parts.iter().map(|p| p.to_string()).collect()
}

fn config_at(source: &[&str]) -> Config {
    let mut c = Config::default();
    c.source_dir = path(source);
    c
}

#[test]
fn collects_accepted_files_with_flat_names() {
    let mut col = Collector::new(&config_at(&["root"]));
    assert!(!col.consider(&path(&["root"]), false));
    assert!(col.consider(&path(&["root", "main.rs"]), true));
    col.supply_content("fn main() {}".to_string());
    assert!(col.consider(&path(&["root", "sub", "lib.rs"]), true));
    col.supply_content("pub fn lib() {}".to_string());
    let artifacts = col.into_artifacts();
    assert_eq!(artifacts.len(), 2);
    assert_eq!(artifacts[0].new_filename, "main.rs");
    assert_eq!(artifacts[0].content, "fn main() {}");
    assert_eq!(artifacts[1].new_filename, "sub_lib.rs");
    assert_eq!(artifacts[1].original_path, path(&["root", "sub", "lib.rs"]));
}

#[test]
fn rejects_files_under_ignored_directories() {
    let mut col = Collector::new(&config_at(&["root"]));
    assert!(!col.consider(&path(&["root", ".git", "config"]), true));
    assert!(!col.consider(&path(&["root", "node_modules", "x.js"]), true));
    assert!(col.consider(&path(&["root", "ok.txt"]), true));
}

#[test]
fn rejects_files_outside_the_source_directory() {
    let mut col = Collector::new(&config_at(&["root"]));
    assert!(!col.consider(&path(&["elsewhere", "f.rs"]), true));
    let artifacts = col.into_artifacts();
    assert!(artifacts.is_empty());
}

#[test]
fn overlapping_roots_yield_each_file_once() {
    // The caller walks both `.` and `src` under the source root; the nested
    // walk offers the same files again.
    let mut col = Collector::new(&config_at(&["root"]));
    assert!(col.consider(&path(&["root", "src", "a.rs"]), true));
    col.supply_content("a".to_string());
    assert!(col.consider(&path(&["root", "top.rs"]), true));
    col.supply_content("t".to_string());
    // Second traversal root reaches the same file again.
    assert!(!col.consider(&path(&["root", "src", "a.rs"]), true));
    let artifacts = col.into_artifacts();
    assert_eq!(artifacts.len(), 2);
    assert_eq!(artifacts[0].new_filename, "src_a.rs");
    assert_eq!(artifacts[1].new_filename, "top.rs");
}

#[test]
fn destination_directory_is_not_reingested() {
    let mut c = config_at(&["root"]);
    c.dest_dir = path(&["root", "claude_files"]);
    let mut col = Collector::new(&c);
    assert!(!col.consider(&path(&["root", "claude_files", "old_output.txt"]), true));
    assert!(col.consider(&path(&["root", "fresh.txt"]), true));
}

#[test]
fn unreadable_file_is_skipped_and_reported() {
    let mut col = Collector::new(&config_at(&["root"]));
    assert!(col.consider(&path(&["root", "good.txt"]), true));
    col.supply_content("fine".to_string());
    assert!(col.consider(&path(&["root", "bad.bin"]), true));
    col.skip_unreadable();
    assert!(col.consider(&path(&["root", "later.txt"]), true));
    col.supply_content("also fine".to_string());
    assert_eq!(col.unreadable_paths(), &vec![path(&["root", "bad.bin"])]);
    let artifacts = col.into_artifacts();
    assert_eq!(artifacts.len(), 2);
    assert_eq!(artifacts[0].new_filename, "good.txt");
    assert_eq!(artifacts[1].new_filename, "later.txt");
}

#[test]
fn colliding_flat_names_both_stay_in_the_artifact_list() {
    let mut col = Collector::new(&config_at(&["root"]));
    assert!(col.consider(&path(&["root", "a", "b.txt"]), true));
    col.supply_content("nested".to_string());
    assert!(col.consider(&path(&["root", "a_b.txt"]), true));
    col.supply_content("flat".to_string());
    let artifacts = col.into_artifacts();
    assert_eq!(artifacts.len(), 2);
    assert_eq!(artifacts[0].new_filename, "a_b.txt");
    assert_eq!(artifacts[1].new_filename, "a_b.txt");
    // Writing materializes them in order under the same name: the later
    // content wins on disk, and exactly one file results.
    assert_eq!(artifacts.last().unwrap().content, "flat");
}

#[test]
fn include_list_restricts_collection() {
    let mut c = config_at(&["root"]);
    c.included_extensions = "rs".to_string();
    let mut col = Collector::new(&c);
    assert!(col.consider(&path(&["root", "keep.rs"]), true));
    col.supply_content(String::new());
    assert!(!col.consider(&path(&["root", "README.md"]), true));
    assert!(!col.consider(&path(&["root", "Makefile"]), true));
}

#[test]
fn exclude_list_wins_over_include_list() {
    let mut c = config_at(&["root"]);
    c.included_extensions = "rs,md".to_string();
    c.excluded_extensions = "md".to_string();
    let mut col = Collector::new(&c);
    assert!(col.consider(&path(&["root", "keep.rs"]), true));
    col.supply_content(String::new());
    assert!(!col.consider(&path(&["root", "README.md"]), true));
}

#[test]
fn pending_state_is_visible() {
    let mut col = Collector::new(&config_at(&["root"]));
    assert!(!col.has_pending());
    assert!(col.consider(&path(&["root", "x.txt"]), true));
    assert!(col.has_pending());
    col.supply_content(String::new());
    assert!(!col.has_pending());
}
