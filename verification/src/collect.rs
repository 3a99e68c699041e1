//! The collection engine.
//!
//! The caller walks the source tree (that is the only part of collection
//! that touches the file system) and offers every entry to a `Collector`.
//! The collector deduplicates candidates, applies the acceptance rule, and
//! accumulates an artifact for every accepted file whose content the caller
//! can read. A single unreadable file never aborts the run: it is recorded
//! and skipped.
//!
//! The protocol per entry: `consider` answers whether the file is wanted;
//! when it is, the caller reads it and hands the text to `supply_content`,
//! or reports failure with `skip_unreadable`.

use vstd::prelude::*;

use crate::artifact::flat_name;
use crate::artifact::spec_is_excluded;
use crate::artifact::spec_is_ignored;
use crate::artifact::spec_is_included;
use crate::artifact::Artifact;
use crate::artifact::ArtifactView;
use crate::config::spec_extension_list;
use crate::config::spec_ignored_dirs;
use crate::config::Config;
use crate::paths::clone_path;
use crate::paths::contains_path;
use crate::paths::is_prefix_of;
use crate::paths::rel_components;
use crate::paths::strip_components;

verus! {

/// Collects artifacts from candidate paths: deduplicates them, filters them
/// by the configuration's rules, and accumulates the accepted files.
pub struct Collector {
    source_dir: Vec<String>,
    ignored_dirs: Vec<String>,
    excluded_extensions: Vec<String>,
    included_extensions: Vec<String>,
    visited: Vec<Vec<String>>,
    artifacts: Vec<Artifact>,
    unreadable: Vec<Vec<String>>,
    pending: Option<(Vec<String>, String)>,
}

/// The mathematical value of a `Collector`.
#[verifier::ext_equal]
pub ghost struct CollectorView {
    pub source_dir: Seq<Seq<char>>,
    pub ignored_dirs: Seq<Seq<char>>,
    pub excluded_extensions: Seq<Seq<char>>,
    pub included_extensions: Seq<Seq<char>>,
    pub visited: Seq<Seq<Seq<char>>>,
    pub artifacts: Seq<ArtifactView>,
    pub unreadable: Seq<Seq<Seq<char>>>,
    pub pending: Option<(Seq<Seq<char>>, Seq<char>)>,
}

impl View for Collector {
    type V = CollectorView;

    closed spec fn view(&self) -> CollectorView {
        CollectorView {
            source_dir: self.source_dir.deep_view(),
            ignored_dirs: self.ignored_dirs.deep_view(),
            excluded_extensions: self.excluded_extensions.deep_view(),
            included_extensions: self.included_extensions.deep_view(),
            visited: self.visited.deep_view(),
            artifacts: self.artifacts.deep_view(),
            unreadable: self.unreadable.deep_view(),
            pending: self.pending.deep_view(),
        }
    }
}

/// The acceptance rule of collection: a candidate file is taken iff it lies
/// under the source directory, its relative path does not lead with an
/// ignored directory name, its extension is not excluded, and it is
/// included.
pub open spec fn spec_accepts(c: CollectorView, path: Seq<Seq<char>>) -> bool {
    &&& is_prefix_of(c.source_dir, path)
    &&& !spec_is_ignored(
        rel_components(path, c.source_dir.len() as int),
        c.ignored_dirs,
    )
    &&& !spec_is_excluded(path, c.excluded_extensions)
    &&& spec_is_included(path, c.included_extensions)
}

/// The flat name an accepted path is written under.
pub open spec fn spec_flat_name_of(c: CollectorView, path: Seq<Seq<char>>) -> Seq<char> {
    flat_name(rel_components(path, c.source_dir.len() as int))
}

/// Two collector states with the same filter rules.
pub open spec fn same_rules(a: CollectorView, b: CollectorView) -> bool {
    &&& a.source_dir == b.source_dir
    &&& a.ignored_dirs == b.ignored_dirs
    &&& a.excluded_extensions == b.excluded_extensions
    &&& a.included_extensions == b.included_extensions
}

/// An accumulated artifact is sound for a collector state: the acceptance
/// rule passed on its path, its name is the flat name of its relative path,
/// and its path was recorded as visited.
pub open spec fn artifact_sound(c: CollectorView, a: ArtifactView) -> bool {
    &&& spec_accepts(c, a.original_path)
    &&& a.new_filename == spec_flat_name_of(c, a.original_path)
    &&& c.visited.contains(a.original_path)
}

impl Collector {
    /// The collector's invariant: every artifact is sound, no two artifacts
    /// come from the same file, and a pending file is accepted, visited and
    /// not yet accumulated.
    pub open spec fn wf(self) -> bool {
        &&& forall|i: int|
            0 <= i < self@.artifacts.len() ==> artifact_sound(self@, #[trigger] self@.artifacts[i])
        &&& forall|i: int, j: int|
            0 <= i < j < self@.artifacts.len() ==> self@.artifacts[i].original_path
                != self@.artifacts[j].original_path
        &&& match self@.pending {
            Some(p) => {
                &&& spec_accepts(self@, p.0)
                &&& p.1 == spec_flat_name_of(self@, p.0)
                &&& self@.visited.contains(p.0)
                &&& forall|i: int|
                    0 <= i < self@.artifacts.len() ==> (#[trigger] self@.artifacts[i]).original_path
                        != p.0
            },
            None => true,
        }
    }

    /// A collector for one run, with the configuration's rules resolved and
    /// nothing collected yet.
    pub fn new(config: &Config) -> (c: Collector)
        ensures
            c.wf(),
            c@.source_dir == config@.source_dir,
            c@.ignored_dirs == spec_ignored_dirs(config@),
            c@.excluded_extensions == spec_extension_list(config@.excluded_extensions),
            c@.included_extensions == spec_extension_list(config@.included_extensions),
            c@.visited == Seq::<Seq<Seq<char>>>::empty(),
            c@.artifacts == Seq::<ArtifactView>::empty(),
            c@.unreadable == Seq::<Seq<Seq<char>>>::empty(),
            c@.pending is None,
    {
        let c = Collector {
            source_dir: clone_path(&config.source_dir),
            ignored_dirs: config.get_ignored_dirs(),
            excluded_extensions: config.get_excluded_extensions(),
            included_extensions: config.get_included_extensions(),
            visited: Vec::new(),
            artifacts: Vec::new(),
            unreadable: Vec::new(),
            pending: None,
        };
        proof {
            assert(c@.visited =~~= Seq::<Seq<Seq<char>>>::empty());
            assert(c@.artifacts =~~= Seq::<ArtifactView>::empty());
            assert(c@.unreadable =~~= Seq::<Seq<Seq<char>>>::empty());
        }
        c
    }

    /// Offers one directory entry to the collector. The answer is `true`
    /// exactly when the entry is a regular file, not seen before in this
    /// run, and accepted by the filter rules; the caller must then read the
    /// file and settle the entry with `supply_content` or
    /// `skip_unreadable`.
    pub fn consider(&mut self, path: &Vec<String>, is_file: bool) -> (accepted: bool)
        requires
            old(self).wf(),
            old(self)@.pending is None,
        ensures
            final(self).wf(),
            same_rules(final(self)@, old(self)@),
            final(self)@.artifacts == old(self)@.artifacts,
            final(self)@.unreadable == old(self)@.unreadable,
            accepted == (is_file && !old(self)@.visited.contains(path.deep_view()) && spec_accepts(
                old(self)@,
                path.deep_view(),
            )),
            final(self)@.visited == (if is_file && !old(self)@.visited.contains(path.deep_view()) {
                old(self)@.visited.push(path.deep_view())
            } else {
                old(self)@.visited
            }),
            final(self)@.pending == (if accepted {
                Some((path.deep_view(), spec_flat_name_of(old(self)@, path.deep_view())))
            } else {
                None::<(Seq<Seq<char>>, Seq<char>)>
            }),
    {
        if !is_file {
            return false;
        }
        if contains_path(&self.visited, path) {
            return false;
        }
        let copy = clone_path(path);
        let ghost pre_visited = self.visited.deep_view();
        self.visited.push(copy);
        proof {
            assert(self.visited.deep_view().len() == pre_visited.len() + 1);
            assert(forall|j: int|
                0 <= j < pre_visited.len() ==> self.visited.deep_view()[j] == pre_visited[j]);
            assert(self.visited.deep_view()[pre_visited.len() as int] == path.deep_view());
            assert(self.visited.deep_view() =~= pre_visited.push(path.deep_view()));
            // Everything already visited stays visited.
            assert(forall|p: Seq<Seq<char>>|
                pre_visited.contains(p) ==> self.visited.deep_view().contains(p));
            assert(self.visited.deep_view().contains(path.deep_view()));
        }
        let accepted = match strip_components(path, &self.source_dir) {
            Some(rel) => {
                if Artifact::is_ignored(&rel, &self.ignored_dirs) {
                    false
                } else if Artifact::is_excluded(path, &self.excluded_extensions) {
                    false
                } else if !Artifact::is_included(path, &self.included_extensions) {
                    false
                } else {
                    let name = Artifact::generate_new_filename(&rel);
                    let copy2 = clone_path(path);
                    self.pending = Some((copy2, name));
                    true
                }
            },
            None => false,
        };
        proof {
            let ov = old(self)@;
            let nv = self@;
            assert(same_rules(nv, ov));
            assert(nv.artifacts == ov.artifacts);
            assert forall|i: int| 0 <= i < nv.artifacts.len() implies artifact_sound(
                nv,
                #[trigger] nv.artifacts[i],
            ) by {
                assert(artifact_sound(ov, ov.artifacts[i]));
                assert(nv.visited.contains(ov.artifacts[i].original_path));
            }
            if accepted {
                assert(spec_accepts(ov, path.deep_view()));
                assert(nv.pending == Some(
                    (path.deep_view(), spec_flat_name_of(ov, path.deep_view())),
                ));
                // The pending path was never visited before, so no artifact
                // holds it.
                assert forall|i: int| 0 <= i < nv.artifacts.len() implies (
                #[trigger] nv.artifacts[i]).original_path != path.deep_view() by {
                    assert(artifact_sound(ov, ov.artifacts[i]));
                    assert(ov.visited.contains(ov.artifacts[i].original_path));
                    assert(!ov.visited.contains(path.deep_view()));
                }
            }
        }
        accepted
    }

    /// Settles the pending file with its content: the artifact is
    /// accumulated.
    pub fn supply_content(&mut self, content: String)
        requires
            old(self).wf(),
            old(self)@.pending is Some,
        ensures
            final(self).wf(),
            same_rules(final(self)@, old(self)@),
            final(self)@.visited == old(self)@.visited,
            final(self)@.unreadable == old(self)@.unreadable,
            final(self)@.pending is None,
            final(self)@.artifacts == old(self)@.artifacts.push(
                ArtifactView {
                    original_path: old(self)@.pending->Some_0.0,
                    new_filename: old(self)@.pending->Some_0.1,
                    content: content@,
                },
            ),
    {
        let pending = self.pending.take();
        match pending {
            Some(pair) => {
                let (original_path, new_filename) = pair;
                let artifact = Artifact { original_path, new_filename, content };
                let ghost pre = self.artifacts.deep_view();
                let ghost av = artifact@;
                self.artifacts.push(artifact);
                proof {
                    assert(self.artifacts.deep_view().len() == pre.len() + 1);
                    assert(forall|j: int|
                        0 <= j < pre.len() ==> self.artifacts.deep_view()[j] == pre[j]);
                    assert(self.artifacts.deep_view()[pre.len() as int] == av);
                    assert(self.artifacts.deep_view() =~= pre.push(av));
                    assert(self@.artifacts =~~= old(self)@.artifacts.push(
                        ArtifactView {
                            original_path: old(self)@.pending->Some_0.0,
                            new_filename: old(self)@.pending->Some_0.1,
                            content: content@,
                        },
                    ));
                    let ov = old(self)@;
                    let nv = self@;
                    assert(same_rules(nv, ov));
                    assert(nv.visited == ov.visited);
                    assert forall|i: int| 0 <= i < nv.artifacts.len() implies artifact_sound(
                        nv,
                        #[trigger] nv.artifacts[i],
                    ) by {
                        if i < ov.artifacts.len() {
                            assert(artifact_sound(ov, ov.artifacts[i]));
                        } else {
                            assert(nv.artifacts[i] == av);
                            assert(spec_accepts(ov, ov.pending->Some_0.0));
                            assert(ov.visited.contains(ov.pending->Some_0.0));
                        }
                    }
                    assert forall|i: int, j: int|
                        0 <= i < j < nv.artifacts.len() implies nv.artifacts[i].original_path
                        != nv.artifacts[j].original_path by {
                        if j < ov.artifacts.len() {
                            assert(artifact_sound(ov, ov.artifacts[i]));
                            assert(artifact_sound(ov, ov.artifacts[j]));
                        } else {
                            assert(ov.artifacts[i].original_path != ov.pending->Some_0.0);
                        }
                    }
                }
            },
            None => {
                proof {
                    assert(false);
                }
            },
        }
    }

    /// Settles the pending file without content: its path is recorded as
    /// unreadable and no artifact is accumulated. The run goes on.
    pub fn skip_unreadable(&mut self)
        requires
            old(self).wf(),
            old(self)@.pending is Some,
        ensures
            final(self).wf(),
            same_rules(final(self)@, old(self)@),
            final(self)@.visited == old(self)@.visited,
            final(self)@.artifacts == old(self)@.artifacts,
            final(self)@.pending is None,
            final(self)@.unreadable == old(self)@.unreadable.push(old(self)@.pending->Some_0.0),
    {
        let pending = self.pending.take();
        match pending {
            Some(pair) => {
                let (original_path, _new_filename) = pair;
                let ghost pre = self.unreadable.deep_view();
                let ghost pv = original_path.deep_view();
                self.unreadable.push(original_path);
                proof {
                    assert(self.unreadable.deep_view().len() == pre.len() + 1);
                    assert(forall|j: int|
                        0 <= j < pre.len() ==> self.unreadable.deep_view()[j] == pre[j]);
                    assert(self.unreadable.deep_view()[pre.len() as int] == pv);
                    assert(self.unreadable.deep_view() =~= pre.push(pv));
                    let ov = old(self)@;
                    let nv = self@;
                    assert(same_rules(nv, ov));
                    assert(nv.visited == ov.visited);
                    assert(nv.artifacts == ov.artifacts);
                    assert forall|i: int| 0 <= i < nv.artifacts.len() implies artifact_sound(
                        nv,
                        #[trigger] nv.artifacts[i],
                    ) by {
                        assert(artifact_sound(ov, ov.artifacts[i]));
                    }
                    assert forall|i: int, j: int|
                        0 <= i < j < nv.artifacts.len() implies nv.artifacts[i].original_path
                        != nv.artifacts[j].original_path by {
                        assert(ov.artifacts[i].original_path != ov.artifacts[j].original_path);
                    }
                }
            },
            None => {
                proof {
                    assert(false);
                }
            },
        }
    }

    /// Whether an entry is waiting for its content.
    pub fn has_pending(&self) -> (r: bool)
        ensures
            r == (self@.pending is Some),
    {
        self.pending.is_some()
    }

    /// The collected artifacts, in traversal order.
    pub fn into_artifacts(self) -> (r: Vec<Artifact>)
        ensures
            r.deep_view() == self@.artifacts,
    {
        self.artifacts
    }

    /// The paths of the files that were accepted but could not be read.
    pub fn unreadable_paths(&self) -> (r: &Vec<Vec<String>>)
        ensures
            r.deep_view() == self@.unreadable,
    {
        &self.unreadable
    }
}

/// Law: whatever stands in a well-formed collector's output passed the
/// acceptance rule — it lies under the source directory, is not ignored,
/// not excluded, and included — and carries the flat name of its relative
/// path.
pub proof fn lemma_artifacts_accepted(c: Collector, i: int)
    requires
        c.wf(),
        0 <= i < c@.artifacts.len(),
    ensures
        spec_accepts(c@, c@.artifacts[i].original_path),
        c@.artifacts[i].new_filename == spec_flat_name_of(c@, c@.artifacts[i].original_path),
{
}

/// Law: each physical file yields at most one artifact, even when
/// overlapping traversal roots offer it several times: no two artifacts of
/// a well-formed collector share their original path.
pub proof fn lemma_artifacts_distinct(c: Collector, i: int, j: int)
    requires
        c.wf(),
        0 <= i < c@.artifacts.len(),
        0 <= j < c@.artifacts.len(),
        i != j,
    ensures
        c@.artifacts[i].original_path != c@.artifacts[j].original_path,
{
}

} // verus!
