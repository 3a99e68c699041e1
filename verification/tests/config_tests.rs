use rustifacts::Config;
use rustifacts::ConfigFile;

fn path(parts: &[&str]) -> Vec<String> {
    parts.iter().map(|p| p.to_string()).collect()
}

fn base_config() -> Config {
    Config::default()
}

#[test]
fn default_config_values() {
    let c = base_config();
    assert_eq!(c.source_dir, path(&["."]));
    assert_eq!(c.dest_dir, path(&[".", "claude_files"]));
    assert_eq!(c.additional_ignored_dirs, "");
    assert!(c.target_dirs.is_none());
    assert_eq!(c.excluded_extensions, "");
    assert_eq!(c.included_extensions, "");
    assert!(c.preset.is_none());
    assert!(c.config_file.is_none());
}

#[test]
fn ignored_dirs_hold_defaults_and_destination_name() {
    let c = base_config();
    let ignored = c.get_ignored_dirs();
    for name in [
        ".git",
        ".idea",
        ".vscode",
        "node_modules",
        "target",
        "build",
        "dist",
        "__pycache__",
        "claude_files",
    ] {
        assert!(ignored.iter().any(|d| d == name), "missing {name}");
    }
    assert_eq!(ignored.len(), 9);
}

#[test]
fn ignored_dirs_include_user_additions_without_blanks() {
    let mut c = base_config();
    c.additional_ignored_dirs = "foo,,bar".to_string();
    let ignored = c.get_ignored_dirs();
    assert!(ignored.iter().any(|d| d == "foo"));
    assert!(ignored.iter().any(|d| d == "bar"));
    assert_eq!(ignored.len(), 11);
}

#[test]
fn target_dirs_default_to_whole_source() {
    let c = base_config();
    assert!(c.get_target_dirs().is_empty());
}

#[test]
fn target_dirs_split_on_commas() {
    let mut c = base_config();
    c.target_dirs = Some("src,tests,".to_string());
    assert_eq!(c.get_target_dirs(), path(&["src", "tests"]));
}

#[test]
fn extension_lists_are_trimmed_and_lowercased() {
    let mut c = base_config();
    c.excluded_extensions = " JPG , png".to_string();
    c.included_extensions = "RS,Toml".to_string();
    assert_eq!(c.get_excluded_extensions(), path(&["jpg", "png"]));
    assert_eq!(c.get_included_extensions(), path(&["rs", "toml"]));
}

#[test]
fn empty_extension_entries_are_dropped_before_trimming() {
    let mut c = base_config();
    c.excluded_extensions = ",,".to_string();
    assert!(c.get_excluded_extensions().is_empty());
}

#[test]
fn config_file_overrides_only_what_it_sets() {
    let mut c = base_config();
    c.additional_ignored_dirs = "keepme".to_string();
    let file = ConfigFile {
        source_dir: None,
        dest_dir: Some("out".to_string()),
        additional_ignored_dirs: None,
        target_dirs: None,
        excluded_extensions: None,
        included_extensions: None,
    };
    c.apply_config_file(&file);
    assert_eq!(c.dest_dir, path(&["out"]));
    assert_eq!(c.source_dir, path(&["."]));
    assert_eq!(c.additional_ignored_dirs, "keepme");
    assert!(c.target_dirs.is_none());
}

#[test]
fn config_file_paths_are_parsed_into_components() {
    let mut c = base_config();
    let file = ConfigFile {
        source_dir: Some("my/project".to_string()),
        dest_dir: Some("./flat".to_string()),
        additional_ignored_dirs: None,
        target_dirs: None,
        excluded_extensions: None,
        included_extensions: None,
    };
    c.apply_config_file(&file);
    assert_eq!(c.source_dir, path(&["my", "project"]));
    assert_eq!(c.dest_dir, path(&[".", "flat"]));
}

#[test]
fn config_file_lists_are_joined_with_commas() {
    let mut c = base_config();
    let file = ConfigFile {
        source_dir: None,
        dest_dir: None,
        additional_ignored_dirs: Some(path(&["a", "b"])),
        target_dirs: Some(path(&["src", "docs"])),
        excluded_extensions: Some(path(&["jpg"])),
        included_extensions: Some(path(&["rs", "md"])),
    };
    c.apply_config_file(&file);
    assert_eq!(c.additional_ignored_dirs, "a,b");
    assert_eq!(c.target_dirs.as_deref(), Some("src,docs"));
    assert_eq!(c.excluded_extensions, "jpg");
    assert_eq!(c.included_extensions, "rs,md");
}

#[test]
fn destination_name_ignored_even_for_custom_destination() {
    let mut c = base_config();
    c.dest_dir = path(&["work", "bundle"]);
    let ignored = c.get_ignored_dirs();
    assert!(ignored.iter().any(|d| d == "bundle"));
}
