use rustifacts::Config;
use rustifacts::ConfigFile;
use rustifacts::presets::get_preset_configs;

fn path(parts: &[&str]) -> Vec<String> {
    parts.iter().map(|p| p.to_string()).collect()
}

#[test]
fn preset_table_holds_nextjs_and_rust() {
    let presets = get_preset_configs();
    assert_eq!(presets.len(), 2);
    assert_eq!(presets[0].0, "nextjs");
    assert_eq!(presets[1].0, "rust");
    assert_eq!(
        presets[0].1.ignored_dirs,
        path(&["node_modules", ".next", "out", ".git"])
    );
    assert_eq!(
        presets[1].1.included_extensions,
        path(&["rs", "toml", "md", "json", "yml", "yaml"])
    );
    assert!(presets[0].1.excluded_extensions.is_empty());
    assert_eq!(
        presets[1].1.target_dirs,
        path(&[".", "src", "tests", "examples", "benches"])
    );
}

#[test]
fn applying_rust_preset_fills_the_list_fields() {
    let mut c = Config::default();
    c.apply_preset("rust").unwrap();
    assert_eq!(c.additional_ignored_dirs, "target,.git,.idea,.vscode");
    assert_eq!(c.included_extensions, "rs,toml,md,json,yml,yaml");
    assert_eq!(c.excluded_extensions, "");
    assert_eq!(c.target_dirs.as_deref(), Some(".,src,tests,examples,benches"));
}

#[test]
fn applying_nextjs_preset_fills_the_list_fields() {
    let mut c = Config::default();
    c.apply_preset("nextjs").unwrap();
    assert_eq!(c.additional_ignored_dirs, "node_modules,.next,out,.git");
    assert_eq!(c.included_extensions, "js,jsx,ts,tsx,json,md,css");
    assert_eq!(c.target_dirs.as_deref(), Some(".,src,components,styles,public"));
}

#[test]
fn preset_leaves_directories_unchanged() {
    let mut c = Config::default();
    c.source_dir = path(&["my", "app"]);
    c.dest_dir = path(&["my", "flat"]);
    c.apply_preset("rust").unwrap();
    assert_eq!(c.source_dir, path(&["my", "app"]));
    assert_eq!(c.dest_dir, path(&["my", "flat"]));
}

#[test]
fn unknown_preset_is_refused_and_changes_nothing() {
    let mut c = Config::default();
    c.included_extensions = "rs".to_string();
    let err = c.apply_preset("django").unwrap_err();
    assert_eq!(err, "Preset 'django' not found");
    assert_eq!(c.included_extensions, "rs");
    assert!(c.target_dirs.is_none());
}

#[test]
fn overriding_destination_after_preset_keeps_preset_fields() {
    let mut c = Config::default();
    c.apply_preset("rust").unwrap();
    let file = ConfigFile {
        source_dir: None,
        dest_dir: Some("elsewhere".to_string()),
        additional_ignored_dirs: None,
        target_dirs: None,
        excluded_extensions: None,
        included_extensions: None,
    };
    c.apply_config_file(&file);
    assert_eq!(c.dest_dir, path(&["elsewhere"]));
    assert_eq!(c.additional_ignored_dirs, "target,.git,.idea,.vscode");
    assert_eq!(c.included_extensions, "rs,toml,md,json,yml,yaml");
    assert_eq!(c.excluded_extensions, "");
    assert_eq!(c.target_dirs.as_deref(), Some(".,src,tests,examples,benches"));
}
