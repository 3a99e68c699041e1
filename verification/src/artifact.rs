//! File artifacts and the filter predicates that select them.

use vstd::prelude::*;

use crate::paths::extension_of;
use crate::paths::extension_of_name;
use crate::paths::is_prefix_of;
use crate::paths::rel_components;
use crate::paths::strip_components;
use crate::text::join_strings;
use crate::text::join_with;
use crate::text::list_contains;
use crate::text::lower_of;
use crate::text::to_lowercase_str;

verus! {

/// A file artifact to be processed and written: where the file was found,
/// the flat name it is written under, and its contents.
pub struct Artifact {
    pub original_path: Vec<String>,
    pub new_filename: String,
    pub content: String,
}

/// The mathematical value of an `Artifact`.
#[verifier::ext_equal]
pub ghost struct ArtifactView {
    pub original_path: Seq<Seq<char>>,
    pub new_filename: Seq<char>,
    pub content: Seq<char>,
}

impl View for Artifact {
    type V = ArtifactView;

    open spec fn view(&self) -> ArtifactView {
        ArtifactView {
            original_path: self.original_path.deep_view(),
            new_filename: self.new_filename@,
            content: self.content@,
        }
    }
}

impl DeepView for Artifact {
    type V = ArtifactView;

    open spec fn deep_view(&self) -> ArtifactView {
        self.view()
    }
}

/// What can go wrong with a single artifact.
#[derive(Clone, Copy, Debug, PartialEq, Eq, Structural)]
pub enum ArtifactError {
    /// The file's content could not be read.
    Io,
    /// The discovered path does not lie under the source directory.
    StripPrefix,
}

/// The flat name of a relative path: its components joined by `_`, that is,
/// the relative path with every separator replaced by an underscore.
pub open spec fn flat_name(rel: Seq<Seq<char>>) -> Seq<char> {
    join_with(rel, "_"@)
}

/// A relative path lies under an ignored directory (or is an ignored name
/// itself) when its first component is one of the ignored names.
pub open spec fn spec_is_ignored(rel: Seq<Seq<char>>, ignored: Seq<Seq<char>>) -> bool {
    rel.len() > 0 && ignored.contains(rel[0])
}

/// The lowercased extension of the file a path names, if it has one.
pub open spec fn spec_extension_lower(path: Seq<Seq<char>>) -> Option<Seq<char>> {
    if path.len() == 0 {
        None
    } else {
        match extension_of(path.last()) {
            Some(e) => Some(lower_of(e)),
            None => None,
        }
    }
}

/// A file is excluded when the exclude list is non-empty and holds its
/// lowercased extension; a file without an extension is never excluded.
pub open spec fn spec_is_excluded(path: Seq<Seq<char>>, excluded: Seq<Seq<char>>) -> bool {
    excluded.len() > 0 && match spec_extension_lower(path) {
        Some(e) => excluded.contains(e),
        None => false,
    }
}

/// A file is included when the include list is empty (include everything)
/// or holds its lowercased extension; a file without an extension is never
/// included by a non-empty list.
pub open spec fn spec_is_included(path: Seq<Seq<char>>, included: Seq<Seq<char>>) -> bool {
    included.len() == 0 || match spec_extension_lower(path) {
        Some(e) => included.contains(e),
        None => false,
    }
}

impl Artifact {
    /// The flat filename of a relative path: every separator between
    /// components becomes an underscore.
    pub fn generate_new_filename(relative_path: &Vec<String>) -> (r: String)
        ensures
            r@ == flat_name(relative_path.deep_view()),
    {
        join_strings(relative_path, "_")
    }

    /// Whether a path, relative to the source directory, lies under one of
    /// the ignored directory names.
    pub fn is_ignored(path: &Vec<String>, ignored_dirs: &Vec<String>) -> (r: bool)
        ensures
            r == spec_is_ignored(path.deep_view(), ignored_dirs.deep_view()),
    {
        if path.len() == 0 {
            return false;
        }
        let first: &String = &path[0];
        proof {
            assert(first@ == path.deep_view()[0]);
        }
        list_contains(ignored_dirs, first)
    }

    /// Whether a file is excluded by its extension.
    pub fn is_excluded(path: &Vec<String>, excluded_extensions: &Vec<String>) -> (r: bool)
        ensures
            r == spec_is_excluded(path.deep_view(), excluded_extensions.deep_view()),
    {
        if excluded_extensions.len() == 0 {
            return false;
        }
        let n = path.len();
        if n == 0 {
            return false;
        }
        let name: &String = &path[n - 1];
        proof {
            assert(name@ == path.deep_view().last());
        }
        match extension_of_name(name.as_str()) {
            Some(e) => {
                let lowered = to_lowercase_str(e.as_str());
                list_contains(excluded_extensions, &lowered)
            },
            None => false,
        }
    }

    /// Whether a file is included by its extension; an empty include list
    /// includes everything.
    pub fn is_included(path: &Vec<String>, included_extensions: &Vec<String>) -> (r: bool)
        ensures
            r == spec_is_included(path.deep_view(), included_extensions.deep_view()),
    {
        if included_extensions.len() == 0 {
            return true;
        }
        let n = path.len();
        if n == 0 {
            return false;
        }
        let name: &String = &path[n - 1];
        proof {
            assert(name@ == path.deep_view().last());
        }
        match extension_of_name(name.as_str()) {
            Some(e) => {
                let lowered = to_lowercase_str(e.as_str());
                list_contains(included_extensions, &lowered)
            },
            None => false,
        }
    }

    /// A new artifact for a file found at `original_path` under
    /// `source_dir`, with its content already read; refused when the path
    /// does not lie under the source directory.
    pub fn new(original_path: Vec<String>, source_dir: &Vec<String>, content: String) -> (r:
        Result<Artifact, ArtifactError>)
        ensures
            match r {
                Ok(a) => is_prefix_of(source_dir.deep_view(), original_path.deep_view())
                    && a@.original_path == original_path.deep_view() && a@.new_filename
                    == flat_name(
                    rel_components(original_path.deep_view(), source_dir.deep_view().len() as int),
                ) && a@.content == content@,
                Err(e) => e == ArtifactError::StripPrefix && !is_prefix_of(
                    source_dir.deep_view(),
                    original_path.deep_view(),
                ),
            },
    {
        match strip_components(&original_path, source_dir) {
            Some(rel) => {
                let new_filename = Self::generate_new_filename(&rel);
                Ok(Artifact { original_path, new_filename, content })
            },
            None => Err(ArtifactError::StripPrefix),
        }
    }
}

/// A file directly under the source root keeps its name: the flat name of a
/// one-component relative path is that component.
pub proof fn lemma_flat_name_single(name: Seq<char>)
    ensures
        flat_name(seq![name]) == name,
{
    assert(seq![name].len() == 1);
}

/// The flat name of a relative path whose components are real file names
/// (non-empty, free of the separator) is itself non-empty and free of the
/// separator.
pub proof fn lemma_flat_name_separator_free(rel: Seq<Seq<char>>)
    requires
        rel.len() > 0,
        forall|i: int| 0 <= i < rel.len() ==> rel[i].len() > 0,
        forall|i: int, j: int|
            0 <= i < rel.len() && 0 <= j < rel[i].len() ==> rel[i][j] != '/',
    ensures
        flat_name(rel).len() > 0,
        forall|k: int| 0 <= k < flat_name(rel).len() ==> flat_name(rel)[k] != '/',
    decreases rel.len(),
{
    reveal_strlit("_");
    assert("_"@.len() == 1);
    assert("_"@[0] == '_');
    if rel.len() == 1 {
        assert(flat_name(rel) == rel[0]);
    } else {
        let head = rel.drop_last();
        lemma_flat_name_separator_free(head);
        let flat = flat_name(rel);
        assert(flat == flat_name(head) + "_"@ + rel.last());
        assert forall|k: int| 0 <= k < flat.len() implies flat[k] != '/' by {
            let a = flat_name(head) + "_"@;
            if k < a.len() {
                if k < flat_name(head).len() {
                    assert(flat[k] == flat_name(head)[k]);
                } else {
                    assert(flat[k] == '_');
                }
            } else {
                assert(flat[k] == rel.last()[k - a.len()]);
                assert(rel.last() == rel[rel.len() - 1]);
            }
        }
    }
}

} // verus!
