//! Named preset configurations: pre-built bundles of ignore, include,
//! exclude and target-directory settings.

use vstd::prelude::*;

use crate::config::Config;
use crate::config::ConfigView;
use crate::text::join_strings;
use crate::text::join_with;

verus! {

/// A pre-built bundle of settings that a preset applies to a configuration.
pub struct PresetConfig {
    pub ignored_dirs: Vec<String>,
    pub included_extensions: Vec<String>,
    pub excluded_extensions: Vec<String>,
    pub target_dirs: Vec<String>,
}

/// The mathematical value of a `PresetConfig`.
#[verifier::ext_equal]
pub ghost struct PresetView {
    pub ignored_dirs: Seq<Seq<char>>,
    pub included_extensions: Seq<Seq<char>>,
    pub excluded_extensions: Seq<Seq<char>>,
    pub target_dirs: Seq<Seq<char>>,
}

impl View for PresetConfig {
    type V = PresetView;

    open spec fn view(&self) -> PresetView {
        PresetView {
            ignored_dirs: self.ignored_dirs.deep_view(),
            included_extensions: self.included_extensions.deep_view(),
            excluded_extensions: self.excluded_extensions.deep_view(),
            target_dirs: self.target_dirs.deep_view(),
        }
    }
}

/// The preset for a Next.js project.
pub open spec fn nextjs_preset() -> PresetView {
    PresetView {
        ignored_dirs: seq!["node_modules"@, ".next"@, "out"@, ".git"@],
        included_extensions: seq!["js"@, "jsx"@, "ts"@, "tsx"@, "json"@, "md"@, "css"@],
        excluded_extensions: Seq::empty(),
        target_dirs: seq!["."@, "src"@, "components"@, "styles"@, "public"@],
    }
}

/// The preset for a Rust project.
pub open spec fn rust_preset() -> PresetView {
    PresetView {
        ignored_dirs: seq!["target"@, ".git"@, ".idea"@, ".vscode"@],
        included_extensions: seq!["rs"@, "toml"@, "md"@, "json"@, "yml"@, "yaml"@],
        excluded_extensions: Seq::empty(),
        target_dirs: seq!["."@, "src"@, "tests"@, "examples"@, "benches"@],
    }
}

/// The preset a name refers to, if any.
pub open spec fn find_preset(name: Seq<char>) -> Option<PresetView> {
    if name == "nextjs"@ {
        Some(nextjs_preset())
    } else if name == "rust"@ {
        Some(rust_preset())
    } else {
        None
    }
}

/// A configuration after a preset is applied: the preset's lists replace
/// the ignore, include, exclude and target fields, joined back into their
/// comma-separated form; every other field keeps its value.
pub open spec fn spec_apply_preset(p: PresetView, c: ConfigView) -> ConfigView {
    ConfigView {
        additional_ignored_dirs: join_with(p.ignored_dirs, ","@),
        included_extensions: join_with(p.included_extensions, ","@),
        excluded_extensions: join_with(p.excluded_extensions, ","@),
        target_dirs: Some(join_with(p.target_dirs, ","@)),
        ..c
    }
}

/// A preset only replaces the ignore, include, exclude and target lists:
/// the directories of the run, and how it was invoked, keep their values.
pub proof fn lemma_preset_preserves_other_fields(p: PresetView, c: ConfigView)
    ensures
        spec_apply_preset(p, c).source_dir == c.source_dir,
        spec_apply_preset(p, c).dest_dir == c.dest_dir,
        spec_apply_preset(p, c).preset == c.preset,
        spec_apply_preset(p, c).config_file == c.config_file,
{
}

/// The message with which an unknown preset name is refused.
pub open spec fn preset_not_found_msg(name: Seq<char>) -> Seq<char> {
    "Preset '"@ + name + "' not found"@
}

/// The table of preset configurations, by name.
pub fn get_preset_configs() -> (r: Vec<(String, PresetConfig)>)
    ensures
        r@.len() == 2,
        r@[0].0@ == "nextjs"@,
        r@[0].1@ == nextjs_preset(),
        r@[1].0@ == "rust"@,
        r@[1].1@ == rust_preset(),
{
    let mut nextjs_ignored: Vec<String> = Vec::new();
    nextjs_ignored.push("node_modules".to_owned());
    nextjs_ignored.push(".next".to_owned());
    nextjs_ignored.push("out".to_owned());
    nextjs_ignored.push(".git".to_owned());
    let mut nextjs_included: Vec<String> = Vec::new();
    nextjs_included.push("js".to_owned());
    nextjs_included.push("jsx".to_owned());
    nextjs_included.push("ts".to_owned());
    nextjs_included.push("tsx".to_owned());
    nextjs_included.push("json".to_owned());
    nextjs_included.push("md".to_owned());
    nextjs_included.push("css".to_owned());
    let nextjs_excluded: Vec<String> = Vec::new();
    let mut nextjs_targets: Vec<String> = Vec::new();
    nextjs_targets.push(".".to_owned());
    nextjs_targets.push("src".to_owned());
    nextjs_targets.push("components".to_owned());
    nextjs_targets.push("styles".to_owned());
    nextjs_targets.push("public".to_owned());
    let nextjs = PresetConfig {
        ignored_dirs: nextjs_ignored,
        included_extensions: nextjs_included,
        excluded_extensions: nextjs_excluded,
        target_dirs: nextjs_targets,
    };
    proof {
        assert(nextjs@.ignored_dirs =~~= nextjs_preset().ignored_dirs);
        assert(nextjs@.included_extensions =~~= nextjs_preset().included_extensions);
        assert(nextjs@.excluded_extensions =~~= nextjs_preset().excluded_extensions);
        assert(nextjs@.target_dirs =~~= nextjs_preset().target_dirs);
        assert(nextjs@ =~~= nextjs_preset());
    }

    let mut rust_ignored: Vec<String> = Vec::new();
    rust_ignored.push("target".to_owned());
    rust_ignored.push(".git".to_owned());
    rust_ignored.push(".idea".to_owned());
    rust_ignored.push(".vscode".to_owned());
    let mut rust_included: Vec<String> = Vec::new();
    rust_included.push("rs".to_owned());
    rust_included.push("toml".to_owned());
    rust_included.push("md".to_owned());
    rust_included.push("json".to_owned());
    rust_included.push("yml".to_owned());
    rust_included.push("yaml".to_owned());
    let rust_excluded: Vec<String> = Vec::new();
    let mut rust_targets: Vec<String> = Vec::new();
    rust_targets.push(".".to_owned());
    rust_targets.push("src".to_owned());
    rust_targets.push("tests".to_owned());
    rust_targets.push("examples".to_owned());
    rust_targets.push("benches".to_owned());
    let rust = PresetConfig {
        ignored_dirs: rust_ignored,
        included_extensions: rust_included,
        excluded_extensions: rust_excluded,
        target_dirs: rust_targets,
    };
    proof {
        assert(rust@.ignored_dirs =~~= rust_preset().ignored_dirs);
        assert(rust@.included_extensions =~~= rust_preset().included_extensions);
        assert(rust@.excluded_extensions =~~= rust_preset().excluded_extensions);
        assert(rust@.target_dirs =~~= rust_preset().target_dirs);
        assert(rust@ =~~= rust_preset());
    }

    let mut r: Vec<(String, PresetConfig)> = Vec::new();
    r.push(("nextjs".to_owned(), nextjs));
    r.push(("rust".to_owned(), rust));
    r
}

/// Applies the named preset to the given configuration; an unknown name is
/// refused and leaves the configuration unchanged.
pub fn apply_preset(config: &mut Config, preset_name: &str) -> (r: Result<(), String>)
    ensures
        match find_preset(preset_name@) {
            Some(p) => r is Ok && final(config)@ == spec_apply_preset(p, old(config)@),
            None => r matches Err(e) && final(config)@ == old(config)@ && e@
                == preset_not_found_msg(preset_name@),
        },
{
    let presets = get_preset_configs();
    let name = preset_name.to_owned();
    let mut i: usize = 0;
    let n = presets.len();
    while i < n
        invariant
            n == presets.len(),
            i <= n,
            name@ == preset_name@,
            forall|j: int| 0 <= j < i ==> presets@[j].0@ != preset_name@,
            n == 2,
            presets@[0].0@ == "nextjs"@ && presets@[0].1@ == nextjs_preset(),
            presets@[1].0@ == "rust"@ && presets@[1].1@ == rust_preset(),
            *config == *old(config),
        decreases n - i,
    {
        let entry: &(String, PresetConfig) = &presets[i];
        if entry.0.eq(&name) {
            let p = &entry.1;
            config.additional_ignored_dirs = join_strings(&p.ignored_dirs, ",");
            config.included_extensions = join_strings(&p.included_extensions, ",");
            config.excluded_extensions = join_strings(&p.excluded_extensions, ",");
            config.target_dirs = Some(join_strings(&p.target_dirs, ","));
            proof {
                assert(find_preset(preset_name@) == Some(presets@[i as int].1@));
                assert((*config)@ =~~= spec_apply_preset(presets@[i as int].1@, old(config)@));
            }
            return Ok(());
        }
        i = i + 1;
    }
    proof {
        assert(presets@[0].0@ != preset_name@);
        assert(presets@[1].0@ != preset_name@);
        assert(find_preset(preset_name@) is None);
    }
    let mut msg = String::from_str("Preset '");
    msg.append(preset_name);
    msg.append("' not found");
    Err(msg)
}

} // verus!
