//! Paths as sequences of components.
//!
//! The library never touches the file system; it works on paths that the
//! caller has already broken into components (the normalized component list
//! that `std::path::Path::components` yields). A path is a `Vec<String>`,
//! one entry per component, viewed as a `Seq<Seq<char>>`.

use vstd::prelude::*;

verus! {

/// `prefix` is a component-wise prefix of `path`.
pub open spec fn is_prefix_of(prefix: Seq<Seq<char>>, path: Seq<Seq<char>>) -> bool {
    prefix.len() <= path.len() && path.take(prefix.len() as int) == prefix
}

/// The components of `path` after a prefix of `n` components is removed.
pub open spec fn rel_components(path: Seq<Seq<char>>, n: int) -> Seq<Seq<char>> {
    path.skip(n)
}

/// The extension of a file name, as `std::path::Path::extension` finds it:
/// the part after the last `.`, or nothing when the name has no `.`, or
/// when its only `.` is the leading one of a hidden file.
pub open spec fn extension_of(name: Seq<char>) -> Option<Seq<char>>
    decreases name.len(),
{
    if name.len() <= 1 {
        None
    } else if name.last() == '.' {
        Some(Seq::empty())
    } else {
        match extension_of(name.drop_last()) {
            Some(e) => Some(e.push(name.last())),
            None => None,
        }
    }
}

/// The file name of a path in components, as `std::path::Path::file_name`
/// finds it: the last component, unless there is none or it is no normal
/// name.
pub open spec fn file_name_of(path: Seq<Seq<char>>) -> Option<Seq<char>> {
    if path.len() == 0 {
        None
    } else if path.last() == "."@ || path.last() == ".."@ || path.last() == "/"@ {
        None
    } else {
        Some(path.last())
    }
}

/// A copy of a path, component by component.
pub(crate) fn clone_path(p: &Vec<String>) -> (r: Vec<String>)
    ensures
        r.deep_view() == p.deep_view(),
{
    let mut out: Vec<String> = Vec::new();
    let n = p.len();
    let mut i: usize = 0;
    while i < n
        invariant
            n == p.len(),
            i <= n,
            out.deep_view() == p.deep_view().take(i as int),
        decreases n - i,
    {
        let piece: &String = &p[i];
        let c = piece.clone();
        proof {
            assert(c@ == p.deep_view()[i as int]);
        }
        let ghost pre = out.deep_view();
        out.push(c);
        proof {
            assert(out.deep_view().len() == pre.len() + 1);
            assert(forall|j: int| 0 <= j < pre.len() ==> out.deep_view()[j] == pre[j]);
            assert(out.deep_view()[i as int] == p.deep_view()[i as int]);
            assert(out.deep_view() =~~= p.deep_view().take(i + 1));
        }
        i = i + 1;
    }
    proof {
        assert(p.deep_view().take(n as int) =~= p.deep_view());
    }
    out
}

/// The two paths have the same components.
pub(crate) fn path_eq(a: &Vec<String>, b: &Vec<String>) -> (r: bool)
    ensures
        r == (a.deep_view() == b.deep_view()),
{
    let n = a.len();
    if n != b.len() {
        proof {
            assert(a.deep_view().len() == n);
            assert(b.deep_view().len() == b.len());
        }
        return false;
    }
    let mut i: usize = 0;
    while i < n
        invariant
            n == a.len() && n == b.len(),
            i <= n,
            forall|j: int| 0 <= j < i ==> a.deep_view()[j] == b.deep_view()[j],
        decreases n - i,
    {
        let x: &String = &a[i];
        let y: &String = &b[i];
        if !x.eq(y) {
            proof {
                assert(a.deep_view()[i as int] != b.deep_view()[i as int]);
            }
            return false;
        }
        i = i + 1;
    }
    proof {
        assert(a.deep_view() =~~= b.deep_view());
    }
    true
}

/// `list` holds a path with the same components as `p`.
pub(crate) fn contains_path(list: &Vec<Vec<String>>, p: &Vec<String>) -> (r: bool)
    ensures
        r == list.deep_view().contains(p.deep_view()),
{
    let n = list.len();
    let mut i: usize = 0;
    while i < n
        invariant
            n == list.len(),
            i <= n,
            forall|j: int| 0 <= j < i ==> list.deep_view()[j] != p.deep_view(),
        decreases n - i,
    {
        let entry: &Vec<String> = &list[i];
        if path_eq(entry, p) {
            proof {
                assert(list.deep_view()[i as int] == p.deep_view());
            }
            return true;
        }
        i = i + 1;
    }
    proof {
        assert(!list.deep_view().contains(p.deep_view()));
    }
    false
}

/// The components of `path` after the leading components of `root` are
/// removed, or nothing when `path` does not lie under `root`.
pub(crate) fn strip_components(path: &Vec<String>, root: &Vec<String>) -> (r: Option<Vec<String>>)
    ensures
        match r {
            Some(rel) => is_prefix_of(root.deep_view(), path.deep_view()) && rel.deep_view()
                == rel_components(path.deep_view(), root.deep_view().len() as int),
            None => !is_prefix_of(root.deep_view(), path.deep_view()),
        },
{
    let k = root.len();
    let n = path.len();
    if n < k {
        return None;
    }
    let mut i: usize = 0;
    while i < k
        invariant
            k == root.len(),
            n == path.len(),
            k <= n,
            i <= k,
            forall|j: int| 0 <= j < i ==> path.deep_view()[j] == root.deep_view()[j],
        decreases k - i,
    {
        let x: &String = &path[i];
        let y: &String = &root[i];
        if !x.eq(y) {
            proof {
                assert(path.deep_view()[i as int] != root.deep_view()[i as int]);
                assert(!is_prefix_of(root.deep_view(), path.deep_view()));
            }
            return None;
        }
        i = i + 1;
    }
    proof {
        assert(path.deep_view().take(k as int) =~~= root.deep_view());
    }
    let mut rel: Vec<String> = Vec::new();
    let mut j: usize = k;
    while j < n
        invariant
            k == root.len(),
            n == path.len(),
            k <= j <= n,
            rel.deep_view() == path.deep_view().subrange(k as int, j as int),
        decreases n - j,
    {
        let piece: &String = &path[j];
        let c = piece.clone();
        proof {
            assert(c@ == path.deep_view()[j as int]);
        }
        let ghost pre = rel.deep_view();
        rel.push(c);
        proof {
            assert(rel.deep_view().len() == pre.len() + 1);
            assert(forall|m: int| 0 <= m < pre.len() ==> rel.deep_view()[m] == pre[m]);
            assert(rel.deep_view()[(j - k) as int] == path.deep_view()[j as int]);
            assert(rel.deep_view() =~~= path.deep_view().subrange(k as int, j + 1));
        }
        j = j + 1;
    }
    proof {
        assert(rel.deep_view() =~~= rel_components(path.deep_view(), k as int));
    }
    Some(rel)
}

/// The extension of a file name, lowercased by the caller if need be.
pub(crate) fn extension_of_name(name: &str) -> (r: Option<String>)
    ensures
        match r {
            Some(e) => extension_of(name@) == Some(e@),
            None => extension_of(name@) is None,
        },
{
    let n = name.unicode_len();
    if n <= 1 {
        return None;
    }
    // Find the last '.' at a position other than the first character.
    let mut i: usize = n;
    let mut dot: usize = 0;
    while i > 1
        invariant
            n == name@.len(),
            1 <= i <= n,
            dot == 0 || (i <= dot < n && name@[dot as int] == '.'),
            dot == 0 ==> forall|j: int| i <= j < n ==> name@[j] != '.',
            dot != 0 ==> i == 1,
            dot != 0 ==> forall|j: int| dot < j < n ==> name@[j] != '.',
        decreases i,
    {
        let c = name.get_char(i - 1);
        if c == '.' {
            dot = i - 1;
            i = 1;
        } else {
            i = i - 1;
        }
    }
    proof {
        lemma_extension_by_last_dot(name@, dot as int);
    }
    if dot == 0 {
        None
    } else {
        Some(name.substring_char(dot + 1, n).to_owned())
    }
}

/// Relates `extension_of` to the position of the last dot: with no dot past
/// the first character there is no extension; otherwise the extension is
/// everything after that dot.
proof fn lemma_extension_by_last_dot(name: Seq<char>, dot: int)
    requires
        name.len() > 1,
        dot == 0 || (1 <= dot < name.len() && name[dot] == '.'),
        dot == 0 ==> forall|j: int| 1 <= j < name.len() ==> name[j] != '.',
        dot != 0 ==> forall|j: int| dot < j < name.len() ==> name[j] != '.',
    ensures
        dot == 0 ==> extension_of(name) is None,
        dot != 0 ==> extension_of(name) == Some(name.skip(dot + 1)),
    decreases name.len(),
{
    if dot != 0 && dot == name.len() - 1 {
        assert(name.last() == '.');
        assert(name.skip(dot + 1) =~= Seq::<char>::empty());
    } else {
        // The last character is not a dot, so the answer comes from the
        // name without it.
        let head = name.drop_last();
        if name.len() == 2 {
            // head has one character: no extension in head.
            assert(extension_of(head) is None);
            assert(dot == 0);
        } else {
            lemma_extension_by_last_dot(head, dot);
            if dot != 0 {
                assert(extension_of(name) == Some(head.skip(dot + 1).push(name.last())));
                assert(head.skip(dot + 1).push(name.last()) =~= name.skip(dot + 1));
            }
        }
    }
}

/// Named result of `std::path::Path::components`: the normalized component
/// sequence of a path written as one string, a function of the string alone
/// (under the build target's path syntax).
pub uninterp spec fn components_of(s: Seq<char>) -> Seq<Seq<char>>;

/// Relies on `std::path::Path::components`: breaks a path string into its
/// normalized components; the result depends on the string alone (the
/// separator convention is the build target's).
#[verifier::external_body]
pub(crate) fn parse_path(s: &str) -> (r: Vec<String>)
    ensures
        r.deep_view() == components_of(s@),
{
    std::path::Path::new(s)
        .components()
        .map(|c| c.as_os_str().to_string_lossy().into_owned())
        .collect()
}

} // verus!
