use rustifacts::Artifact;
use rustifacts::ArtifactError;

fn path(parts: &[&str]) -> Vec<String> {
    parts.iter().map(|p| p.to_string()).collect()
}

#[test]
fn flatten_joins_components_with_underscores() {
    let name = Artifact::generate_new_filename(&path(&["a", "b", "c.txt"]));
    assert_eq!(name, "a_b_c.txt");
}

#[test]
fn flatten_keeps_top_level_name_unchanged() {
    let name = Artifact::generate_new_filename(&path(&["main.rs"]));
    assert_eq!(name, "main.rs");
}

#[test]
fn flatten_is_deterministic() {
    let rel = path(&["src", "deep", "mod.rs"]);
    let first = Artifact::generate_new_filename(&rel);
    let second = Artifact::generate_new_filename(&rel);
    assert_eq!(first, second);
    assert_eq!(first, "src_deep_mod.rs");
}

#[test]
fn flatten_collides_for_separator_and_underscore() {
    let nested = Artifact::generate_new_filename(&path(&["a", "b.txt"]));
    let flat = Artifact::generate_new_filename(&path(&["a_b.txt"]));
    assert_eq!(nested, flat);
    assert_eq!(nested, "a_b.txt");
}

#[test]
fn ignored_when_first_component_matches() {
    let ignored = path(&[".git", "node_modules"]);
    assert!(Artifact::is_ignored(&path(&[".git", "config"]), &ignored));
    assert!(Artifact::is_ignored(&path(&["node_modules", "x", "y.js"]), &ignored));
}

#[test]
fn not_ignored_when_match_is_not_leading() {
    let ignored = path(&[".git"]);
    assert!(!Artifact::is_ignored(&path(&["src", ".git", "config"]), &ignored));
    assert!(!Artifact::is_ignored(&path(&["src", "lib.rs"]), &ignored));
}

#[test]
fn a_file_named_like_an_ignored_directory_is_ignored() {
    let ignored = path(&[".git"]);
    assert!(Artifact::is_ignored(&path(&[".git"]), &ignored));
}

#[test]
fn excluded_matches_extension_case_insensitively() {
    let excluded = path(&["jpg", "png"]);
    assert!(Artifact::is_excluded(&path(&["img", "photo.JPG"]), &excluded));
    assert!(Artifact::is_excluded(&path(&["img", "logo.png"]), &excluded));
    assert!(!Artifact::is_excluded(&path(&["src", "main.rs"]), &excluded));
}

#[test]
fn empty_exclude_list_excludes_nothing() {
    let excluded: Vec<String> = Vec::new();
    assert!(!Artifact::is_excluded(&path(&["img", "photo.jpg"]), &excluded));
}

#[test]
fn file_without_extension_is_never_excluded() {
    let excluded = path(&["jpg"]);
    assert!(!Artifact::is_excluded(&path(&["Makefile"]), &excluded));
    assert!(!Artifact::is_excluded(&path(&[".gitignore"]), &excluded));
}

#[test]
fn empty_include_list_includes_everything() {
    let included: Vec<String> = Vec::new();
    assert!(Artifact::is_included(&path(&["anything.bin"]), &included));
    assert!(Artifact::is_included(&path(&["Makefile"]), &included));
}

#[test]
fn include_list_matches_extension_case_insensitively() {
    let included = path(&["rs", "toml"]);
    assert!(Artifact::is_included(&path(&["src", "main.RS"]), &included));
    assert!(Artifact::is_included(&path(&["Cargo.toml"]), &included));
    assert!(!Artifact::is_included(&path(&["readme.md"]), &included));
}

#[test]
fn file_without_extension_is_not_included_by_nonempty_list() {
    let included = path(&["rs"]);
    assert!(!Artifact::is_included(&path(&["Makefile"]), &included));
    assert!(!Artifact::is_included(&path(&[".gitignore"]), &included));
}

#[test]
fn new_artifact_strips_source_prefix() {
    let a = Artifact::new(
        path(&["home", "proj", "src", "lib.rs"]),
        &path(&["home", "proj"]),
        "fn x() {}".to_string(),
    )
    .unwrap();
    assert_eq!(a.new_filename, "src_lib.rs");
    assert_eq!(a.content, "fn x() {}");
    assert_eq!(a.original_path, path(&["home", "proj", "src", "lib.rs"]));
}

#[test]
fn new_artifact_rejects_path_outside_source() {
    let r = Artifact::new(
        path(&["elsewhere", "lib.rs"]),
        &path(&["home", "proj"]),
        String::new(),
    );
    match r {
        Err(e) => assert_eq!(e, ArtifactError::StripPrefix),
        Ok(_) => panic!("a path outside the source directory was accepted"),
    }
}
