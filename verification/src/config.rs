//! Configuration of a run: where to read, where to write, and which files
//! to take.

use vstd::prelude::*;

use crate::config_file::ConfigFile;
use crate::paths::file_name_of;
use crate::text::keep_nonempty;
use crate::text::lower_of;
use crate::text::nonblank;
use crate::text::split_at;
use crate::text::split_string;
use crate::text::to_lowercase_str;
use crate::text::trim_of;
use crate::text::trim_str;

verus! {

/// Configuration options for the file preparation run.
///
/// Directories are paths in components (see `crate::paths`); the list-valued
/// options are comma-separated strings, as they arrive from a command line.
pub struct Config {
    /// Source directory to process files from.
    pub source_dir: Vec<String>,
    /// Destination directory to copy processed files to.
    pub dest_dir: Vec<String>,
    /// Comma-separated list of additional directories to ignore.
    pub additional_ignored_dirs: String,
    /// Comma-separated list of target directories to include, relative to
    /// the source directory.
    pub target_dirs: Option<String>,
    /// Comma-separated list of file extensions to exclude.
    pub excluded_extensions: String,
    /// Comma-separated list of file extensions to include.
    pub included_extensions: String,
    /// Preset configuration to use.
    pub preset: Option<String>,
    /// Path to the configuration file.
    pub config_file: Option<Vec<String>>,
}

/// The mathematical value of a `Config`: every field as its view.
#[verifier::ext_equal]
pub ghost struct ConfigView {
    pub source_dir: Seq<Seq<char>>,
    pub dest_dir: Seq<Seq<char>>,
    pub additional_ignored_dirs: Seq<char>,
    pub target_dirs: Option<Seq<char>>,
    pub excluded_extensions: Seq<char>,
    pub included_extensions: Seq<char>,
    pub preset: Option<Seq<char>>,
    pub config_file: Option<Seq<Seq<char>>>,
}

impl View for Config {
    type V = ConfigView;

    open spec fn view(&self) -> ConfigView {
        ConfigView {
            source_dir: self.source_dir.deep_view(),
            dest_dir: self.dest_dir.deep_view(),
            additional_ignored_dirs: self.additional_ignored_dirs@,
            target_dirs: self.target_dirs.deep_view(),
            excluded_extensions: self.excluded_extensions@,
            included_extensions: self.included_extensions@,
            preset: self.preset.deep_view(),
            config_file: self.config_file.deep_view(),
        }
    }
}

/// The directory names that every run ignores.
pub open spec fn default_ignored_dirs() -> Seq<Seq<char>> {
    seq![
        ".git"@,
        ".idea"@,
        ".vscode"@,
        "node_modules"@,
        "target"@,
        "build"@,
        "dist"@,
        "__pycache__"@,
    ]
}

/// The full ignored-directory list of a configuration: the defaults, then
/// the destination directory's own base name, then the user's additions.
pub open spec fn spec_ignored_dirs(c: ConfigView) -> Seq<Seq<char>> {
    default_ignored_dirs() + (match file_name_of(c.dest_dir) {
        Some(n) => seq![n],
        None => Seq::empty(),
    }) + nonblank(split_at(c.additional_ignored_dirs, ','))
}

/// The destination directory's own base name is always ignored, whether or
/// not the user listed it: collection never re-ingests a prior run's
/// output.
pub proof fn lemma_dest_dir_ignored(c: ConfigView)
    requires
        file_name_of(c.dest_dir) is Some,
    ensures
        spec_ignored_dirs(c).contains(file_name_of(c.dest_dir)->Some_0),
{
    let n = file_name_of(c.dest_dir)->Some_0;
    assert(default_ignored_dirs().len() == 8);
    assert(spec_ignored_dirs(c)[8] == n);
}

/// The target-directory list of a configuration; empty means that the whole
/// source directory is processed.
pub open spec fn spec_target_dirs(c: ConfigView) -> Seq<Seq<char>> {
    match c.target_dirs {
        Some(s) => nonblank(split_at(s, ',')),
        None => Seq::empty(),
    }
}

/// An extension list as it is evaluated: the non-empty comma-separated
/// entries, each trimmed and lowercased.
pub open spec fn spec_extension_list(s: Seq<char>) -> Seq<Seq<char>> {
    nonblank(split_at(s, ',')).map_values(|p: Seq<char>| lower_of(trim_of(p)))
}

/// The non-empty comma-separated entries of `s`, each trimmed and
/// lowercased.
fn extension_list(s: &str) -> (r: Vec<String>)
    ensures
        r.deep_view() == spec_extension_list(s@),
{
    let pieces = keep_nonempty(split_string(s, ','));
    let mut out: Vec<String> = Vec::new();
    let n = pieces.len();
    let mut i: usize = 0;
    while i < n
        invariant
            n == pieces.len(),
            i <= n,
            out.deep_view().len() == i,
            forall|j: int| 0 <= j < i ==> out.deep_view()[j] == lower_of(
                trim_of(pieces.deep_view()[j]),
            ),
        decreases n - i,
    {
        let piece: &String = &pieces[i];
        let trimmed = trim_str(piece.as_str());
        let lowered = to_lowercase_str(trimmed.as_str());
        proof {
            assert(lowered@ == lower_of(trim_of(pieces.deep_view()[i as int])));
        }
        let ghost pre = out.deep_view();
        out.push(lowered);
        proof {
            assert(out.deep_view().len() == pre.len() + 1);
            assert(forall|j: int| 0 <= j < pre.len() ==> out.deep_view()[j] == pre[j]);
            assert(out.deep_view()[i as int] == lowered@);
            assert forall|j: int| 0 <= j < i + 1 implies out.deep_view()[j] == lower_of(
                trim_of(pieces.deep_view()[j]),
            ) by {
                if j < i as int {
                    assert(out.deep_view()[j] == pre[j]);
                    assert(pre[j] == lower_of(trim_of(pieces.deep_view()[j])));
                }
            }
        }
        i = i + 1;
    }
    proof {
        assert(out.deep_view() =~~= spec_extension_list(s@));
    }
    out
}

/// Appends every component of `src` to `dst`, in order.
fn append_all(dst: &mut Vec<String>, src: &Vec<String>)
    ensures
        final(dst).deep_view() == old(dst).deep_view() + src.deep_view(),
{
    let n = src.len();
    let mut i: usize = 0;
    while i < n
        invariant
            n == src.len(),
            i <= n,
            dst.deep_view() == old(dst).deep_view() + src.deep_view().take(i as int),
        decreases n - i,
    {
        let piece: &String = &src[i];
        let c = piece.clone();
        proof {
            assert(c@ == src.deep_view()[i as int]);
        }
        let ghost pre = dst.deep_view();
        dst.push(c);
        proof {
            assert(dst.deep_view().len() == pre.len() + 1);
            assert(forall|j: int| 0 <= j < pre.len() ==> dst.deep_view()[j] == pre[j]);
            assert(dst.deep_view()[pre.len() as int] == c@);
            assert(dst.deep_view() =~= pre.push(c@));
            assert(pre.push(c@) =~= old(dst).deep_view() + src.deep_view().take(i + 1));
        }
        i = i + 1;
    }
    proof {
        assert(src.deep_view().take(n as int) =~= src.deep_view());
        assert(dst.deep_view() =~= old(dst).deep_view() + src.deep_view());
    }
}

impl Config {
    /// The directories to ignore during file processing: a default list of
    /// commonly ignored directories, the destination directory's own base
    /// name, and the user's additions.
    pub fn get_ignored_dirs(&self) -> (r: Vec<String>)
        ensures
            r.deep_view() == spec_ignored_dirs(self@),
    {
        let mut r: Vec<String> = Vec::new();
        r.push(".git".to_owned());
        r.push(".idea".to_owned());
        r.push(".vscode".to_owned());
        r.push("node_modules".to_owned());
        r.push("target".to_owned());
        r.push("build".to_owned());
        r.push("dist".to_owned());
        r.push("__pycache__".to_owned());
        proof {
            assert(r.deep_view() =~~= default_ignored_dirs());
        }

        // The destination directory must ignore itself, or a second run
        // would re-ingest its own previous output.
        let dn = self.dest_dir.len();
        if dn > 0 {
            let last: &String = &self.dest_dir[dn - 1];
            let cur = String::from_str(".");
            let parent = String::from_str("..");
            let root = String::from_str("/");
            if !last.eq(&cur) && !last.eq(&parent) && !last.eq(&root) {
                let ghost pre = r.deep_view();
                r.push(last.clone());
                proof {
                    assert(self@.dest_dir.last() == last@);
                    assert(forall|j: int| 0 <= j < pre.len() ==> r.deep_view()[j] == pre[j]);
                    assert(r.deep_view() =~~= default_ignored_dirs() + (match file_name_of(
                        self@.dest_dir,
                    ) {
                        Some(n) => seq![n],
                        None => Seq::<Seq<char>>::empty(),
                    }));
                }
            } else {
                proof {
                    assert(file_name_of(self@.dest_dir) is None);
                    assert(r.deep_view() =~~= default_ignored_dirs() + (match file_name_of(
                        self@.dest_dir,
                    ) {
                        Some(n) => seq![n],
                        None => Seq::<Seq<char>>::empty(),
                    }));
                }
            }
        } else {
            proof {
                assert(r.deep_view() =~~= default_ignored_dirs() + (match file_name_of(
                    self@.dest_dir,
                ) {
                    Some(n) => seq![n],
                    None => Seq::<Seq<char>>::empty(),
                }));
            }
        }

        let extra = keep_nonempty(split_string(self.additional_ignored_dirs.as_str(), ','));
        append_all(&mut r, &extra);
        proof {
            assert(r.deep_view() =~= spec_ignored_dirs(self@));
        }
        r
    }

    /// The target directories to process; empty means the whole source
    /// directory.
    pub fn get_target_dirs(&self) -> (r: Vec<String>)
        ensures
            r.deep_view() == spec_target_dirs(self@),
    {
        match &self.target_dirs {
            Some(dirs) => keep_nonempty(split_string(dirs.as_str(), ',')),
            None => {
                let r: Vec<String> = Vec::new();
                proof {
                    assert(r.deep_view() =~= spec_target_dirs(self@));
                }
                r
            },
        }
    }

    /// The file extensions to exclude during processing.
    pub fn get_excluded_extensions(&self) -> (r: Vec<String>)
        ensures
            r.deep_view() == spec_extension_list(self@.excluded_extensions),
    {
        extension_list(self.excluded_extensions.as_str())
    }

    /// The file extensions to include during processing.
    pub fn get_included_extensions(&self) -> (r: Vec<String>)
        ensures
            r.deep_view() == spec_extension_list(self@.included_extensions),
    {
        extension_list(self.included_extensions.as_str())
    }

    /// Applies the named preset to this configuration.
    pub fn apply_preset(&mut self, preset_name: &str) -> (r: Result<(), String>)
        ensures
            match crate::presets::find_preset(preset_name@) {
                Some(p) => r is Ok && final(self)@ == crate::presets::spec_apply_preset(
                    p,
                    old(self)@,
                ),
                None => r matches Err(e) && final(self)@ == old(self)@ && e@
                    == crate::presets::preset_not_found_msg(preset_name@),
            },
    {
        crate::presets::apply_preset(self, preset_name)
    }

    /// Applies an already-read configuration file to this configuration.
    pub fn apply_config_file(&mut self, file_config: &ConfigFile)
        ensures
            final(self)@ == crate::config_file::spec_apply_file(file_config@, old(self)@),
    {
        file_config.apply_to_config(self)
    }
}

/// The configuration of a run that names nothing: the current directory as
/// source, a fixed subdirectory of it as destination, no extra ignores, no
/// target restriction, no extension lists.
pub open spec fn default_config() -> ConfigView {
    ConfigView {
        source_dir: seq!["."@],
        dest_dir: seq!["."@, "claude_files"@],
        additional_ignored_dirs: Seq::empty(),
        target_dirs: None,
        excluded_extensions: Seq::empty(),
        included_extensions: Seq::empty(),
        preset: None,
        config_file: None,
    }
}

impl Default for Config {
    /// The defaults of the command line: source `.`, destination
    /// `./claude_files`, everything else empty.
    fn default() -> (c: Config)
        ensures
            c@ == default_config(),
    {
        let mut source_dir: Vec<String> = Vec::new();
        source_dir.push(".".to_owned());
        let mut dest_dir: Vec<String> = Vec::new();
        dest_dir.push(".".to_owned());
        dest_dir.push("claude_files".to_owned());
        let c = Config {
            source_dir,
            dest_dir,
            additional_ignored_dirs: String::new(),
            target_dirs: None,
            excluded_extensions: String::new(),
            included_extensions: String::new(),
            preset: None,
            config_file: None,
        };
        proof {
            assert(c@.source_dir =~~= default_config().source_dir);
            assert(c@.dest_dir =~~= default_config().dest_dir);
            assert(c@ =~~= default_config());
        }
        c
    }
}

} // verus!
