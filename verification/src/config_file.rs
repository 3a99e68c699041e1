//! The contents of an external configuration document: optional overrides
//! for the fields of a `Config`.

use vstd::prelude::*;

use crate::config::Config;
use crate::config::ConfigView;
use crate::paths::components_of;
use crate::paths::parse_path;
use crate::text::join_strings;
use crate::text::join_with;

verus! {

/// The optional fields a configuration document may set. The caller parses
/// the document and hands the finished value here.
pub struct ConfigFile {
    pub source_dir: Option<String>,
    pub dest_dir: Option<String>,
    pub additional_ignored_dirs: Option<Vec<String>>,
    pub target_dirs: Option<Vec<String>>,
    pub excluded_extensions: Option<Vec<String>>,
    pub included_extensions: Option<Vec<String>>,
}

/// The mathematical value of a `ConfigFile`.
#[verifier::ext_equal]
pub ghost struct ConfigFileView {
    pub source_dir: Option<Seq<char>>,
    pub dest_dir: Option<Seq<char>>,
    pub additional_ignored_dirs: Option<Seq<Seq<char>>>,
    pub target_dirs: Option<Seq<Seq<char>>>,
    pub excluded_extensions: Option<Seq<Seq<char>>>,
    pub included_extensions: Option<Seq<Seq<char>>>,
}

impl View for ConfigFile {
    type V = ConfigFileView;

    open spec fn view(&self) -> ConfigFileView {
        ConfigFileView {
            source_dir: self.source_dir.deep_view(),
            dest_dir: self.dest_dir.deep_view(),
            additional_ignored_dirs: self.additional_ignored_dirs.deep_view(),
            target_dirs: self.target_dirs.deep_view(),
            excluded_extensions: self.excluded_extensions.deep_view(),
            included_extensions: self.included_extensions.deep_view(),
        }
    }
}

/// A configuration after a document is applied: every field the document
/// sets replaces the configuration's value; every other field keeps it.
/// Directories are parsed into components, lists are joined back into their
/// comma-separated form.
pub open spec fn spec_apply_file(f: ConfigFileView, c: ConfigView) -> ConfigView {
    ConfigView {
        source_dir: match f.source_dir {
            Some(s) => components_of(s),
            None => c.source_dir,
        },
        dest_dir: match f.dest_dir {
            Some(s) => components_of(s),
            None => c.dest_dir,
        },
        additional_ignored_dirs: match f.additional_ignored_dirs {
            Some(l) => join_with(l, ","@),
            None => c.additional_ignored_dirs,
        },
        target_dirs: match f.target_dirs {
            Some(l) => Some(join_with(l, ","@)),
            None => c.target_dirs,
        },
        excluded_extensions: match f.excluded_extensions {
            Some(l) => join_with(l, ","@),
            None => c.excluded_extensions,
        },
        included_extensions: match f.included_extensions {
            Some(l) => join_with(l, ","@),
            None => c.included_extensions,
        },
        preset: c.preset,
        config_file: c.config_file,
    }
}

/// Overriding one field after a preset was applied preserves every
/// preset-derived field: a document that only sets the destination
/// directory leaves the preset's ignore, include, exclude and target lists
/// exactly as the preset wrote them.
pub proof fn lemma_override_keeps_preset_fields(
    f: ConfigFileView,
    p: crate::presets::PresetView,
    c: ConfigView,
)
    requires
        f.source_dir is None,
        f.additional_ignored_dirs is None,
        f.target_dirs is None,
        f.excluded_extensions is None,
        f.included_extensions is None,
    ensures
        spec_apply_file(f, crate::presets::spec_apply_preset(p, c)).additional_ignored_dirs
            == join_with(p.ignored_dirs, ","@),
        spec_apply_file(f, crate::presets::spec_apply_preset(p, c)).included_extensions
            == join_with(p.included_extensions, ","@),
        spec_apply_file(f, crate::presets::spec_apply_preset(p, c)).excluded_extensions
            == join_with(p.excluded_extensions, ","@),
        spec_apply_file(f, crate::presets::spec_apply_preset(p, c)).target_dirs == Some(
            join_with(p.target_dirs, ","@),
        ),
        spec_apply_file(f, crate::presets::spec_apply_preset(p, c)).source_dir == c.source_dir,
{
}

impl ConfigFile {
    /// Applies the fields this document sets to the given configuration.
    pub fn apply_to_config(&self, config: &mut Config)
        ensures
            final(config)@ == spec_apply_file(self@, old(config)@),
    {
        match &self.source_dir {
            Some(source_dir) => {
                config.source_dir = parse_path(source_dir.as_str());
            },
            None => {},
        }
        match &self.dest_dir {
            Some(dest_dir) => {
                config.dest_dir = parse_path(dest_dir.as_str());
            },
            None => {},
        }
        match &self.additional_ignored_dirs {
            Some(ignored_dirs) => {
                config.additional_ignored_dirs = join_strings(ignored_dirs, ",");
            },
            None => {},
        }
        match &self.target_dirs {
            Some(target_dirs) => {
                config.target_dirs = Some(join_strings(target_dirs, ","));
            },
            None => {},
        }
        match &self.excluded_extensions {
            Some(excluded_exts) => {
                config.excluded_extensions = join_strings(excluded_exts, ",");
            },
            None => {},
        }
        match &self.included_extensions {
            Some(included_exts) => {
                config.included_extensions = join_strings(included_exts, ",");
            },
            None => {},
        }
        proof {
            assert((*config)@ =~~= spec_apply_file(self@, old(config)@));
        }
    }
}

} // verus!
