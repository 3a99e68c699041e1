//! Splitting and joining of character sequences, and the two pieces of
//! text handling the library takes from the standard library on trust:
//! whitespace trimming and lowercasing.

use vstd::prelude::*;

verus! {

/// The characters of `parts` joined with `sep` between consecutive parts.
pub open spec fn join_with(parts: Seq<Seq<char>>, sep: Seq<char>) -> Seq<char>
    decreases parts.len(),
{
    if parts.len() == 0 {
        Seq::empty()
    } else if parts.len() == 1 {
        parts[0]
    } else {
        join_with(parts.drop_last(), sep) + sep + parts.last()
    }
}

/// `s` split at every occurrence of `sep`, as `str::split` does it: the
/// result always has one piece more than `s` has separators, so splitting
/// an empty sequence gives one empty piece.
pub open spec fn split_at(s: Seq<char>, sep: char) -> Seq<Seq<char>>
    decreases s.len(),
{
    if s.len() == 0 {
        seq![Seq::<char>::empty()]
    } else if s[0] == sep {
        seq![Seq::<char>::empty()] + split_at(s.drop_first(), sep)
    } else {
        let rest = split_at(s.drop_first(), sep);
        seq![seq![s[0]] + rest[0]] + rest.drop_first()
    }
}

/// The pieces of `parts` that are not empty, in order.
pub open spec fn nonblank(parts: Seq<Seq<char>>) -> Seq<Seq<char>> {
    parts.filter(|p: Seq<char>| p.len() > 0)
}

proof fn lemma_split_at_len(s: Seq<char>, sep: char)
    ensures
        split_at(s, sep).len() >= 1,
    decreases s.len(),
{
    if s.len() == 0 {
    } else if s[0] == sep {
        lemma_split_at_len(s.drop_first(), sep);
    } else {
        lemma_split_at_len(s.drop_first(), sep);
    }
}

/// Appending one character to the split input either opens a fresh empty
/// piece (if it is the separator) or extends the last piece.
proof fn lemma_split_at_push(s: Seq<char>, sep: char, c: char)
    ensures
        split_at(s.push(c), sep) == if c == sep {
            split_at(s, sep).push(Seq::<char>::empty())
        } else {
            split_at(s, sep).update(
                split_at(s, sep).len() - 1,
                split_at(s, sep).last().push(c),
            )
        },
    decreases s.len(),
{
    lemma_split_at_len(s, sep);
    let sc = s.push(c);
    if s.len() == 0 {
        assert(sc.drop_first() =~= Seq::<char>::empty());
        assert(split_at(Seq::<char>::empty(), sep) =~~= seq![Seq::<char>::empty()]);
        if c == sep {
            assert(split_at(sc, sep) =~~= split_at(s, sep).push(Seq::<char>::empty()));
        } else {
            assert(split_at(sc, sep) =~~= split_at(s, sep).update(
                0,
                split_at(s, sep).last().push(c),
            ));
        }
    } else {
        assert(sc.drop_first() =~= s.drop_first().push(c));
        lemma_split_at_push(s.drop_first(), sep, c);
        lemma_split_at_len(s.drop_first(), sep);
        // The solver needs the case split on the first character to unfold
        // `split_at` on both sides.
        if c == sep {
            if s[0] == sep {
                assert(split_at(sc, sep) =~~= split_at(s, sep).push(Seq::<char>::empty()));
            } else {
                assert(split_at(sc, sep) =~~= split_at(s, sep).push(Seq::<char>::empty()));
            }
        } else {
            let old_split = split_at(s, sep);
            if s[0] == sep {
                assert(split_at(sc, sep) =~~= old_split.update(
                    old_split.len() - 1,
                    old_split.last().push(c),
                ));
            } else {
                assert(split_at(sc, sep) =~~= old_split.update(
                    old_split.len() - 1,
                    old_split.last().push(c),
                ));
            }
        }
    }
}

/// `s` split at every occurrence of `sep`.
pub(crate) fn split_string(s: &str, sep: char) -> (r: Vec<String>)
    ensures
        r.deep_view() == split_at(s@, sep),
{
    let n = s.unicode_len();
    let mut pieces: Vec<String> = Vec::new();
    let mut start: usize = 0;
    let mut i: usize = 0;
    proof {
        assert(s@.take(0) =~= Seq::<char>::empty());
        assert(pieces.deep_view() =~= split_at(s@.take(0), sep).drop_last());
        assert(s@.subrange(0, 0) =~= split_at(s@.take(0), sep).last());
    }
    while i < n
        invariant
            n == s@.len(),
            start <= i <= n,
            pieces.deep_view() == split_at(s@.take(i as int), sep).drop_last(),
            s@.subrange(start as int, i as int) == split_at(s@.take(i as int), sep).last(),
        decreases n - i,
    {
        let ghost prev = split_at(s@.take(i as int), sep);
        proof {
            lemma_split_at_len(s@.take(i as int), sep);
            lemma_split_at_push(s@.take(i as int), sep, s@[i as int]);
            assert(s@.take(i + 1) =~= s@.take(i as int).push(s@[i as int]));
        }
        let c = s.get_char(i);
        if c == sep {
            let piece = s.substring_char(start, i).to_owned();
            pieces.push(piece);
            proof {
                let cur = split_at(s@.take(i + 1), sep);
                assert(cur =~~= prev.push(Seq::<char>::empty()));
                assert(cur.drop_last() =~~= prev);
                assert(prev =~~= prev.drop_last().push(prev.last()));
                assert(pieces.deep_view() =~~= prev.drop_last().push(prev.last()));
            }
            start = i + 1;
            i = i + 1;
            proof {
                assert(s@.subrange(start as int, i as int) =~= split_at(
                    s@.take(i as int),
                    sep,
                ).last());
            }
        } else {
            i = i + 1;
            proof {
                let cur = split_at(s@.take(i as int), sep);
                assert(cur =~~= prev.update(prev.len() - 1, prev.last().push(s@[i - 1])));
                assert(cur.drop_last() =~~= prev.drop_last());
                assert(s@.subrange(start as int, i as int) =~= s@.subrange(
                    start as int,
                    i - 1,
                ).push(s@[i - 1]));
            }
        }
    }
    proof {
        assert(s@.take(n as int) =~= s@);
    }
    let last_piece = s.substring_char(start, n).to_owned();
    pieces.push(last_piece);
    proof {
        let whole = split_at(s@, sep);
        lemma_split_at_len(s@, sep);
        assert(pieces.deep_view() =~~= whole.drop_last().push(whole.last()));
        assert(whole.drop_last().push(whole.last()) =~~= whole);
    }
    pieces
}

/// Appending one piece to the input keeps it out of `nonblank` exactly when
/// it is empty.
proof fn lemma_nonblank_push(parts: Seq<Seq<char>>, p: Seq<char>)
    ensures
        nonblank(parts.push(p)) == if p.len() > 0 {
            nonblank(parts).push(p)
        } else {
            nonblank(parts)
        },
{
    reveal(Seq::filter);
    assert(parts.push(p).drop_last() =~~= parts);
    assert(parts.push(p).last() == p);
}

/// The pieces of `parts` that are not empty, in order.
pub(crate) fn keep_nonempty(parts: Vec<String>) -> (r: Vec<String>)
    ensures
        r.deep_view() == nonblank(parts.deep_view()),
{
    let mut out: Vec<String> = Vec::new();
    let n = parts.len();
    let mut i: usize = 0;
    proof {
        reveal(Seq::filter);
        assert(parts.deep_view().take(0) =~~= Seq::<Seq<char>>::empty());
        assert(out.deep_view() =~= nonblank(parts.deep_view().take(0)));
    }
    while i < n
        invariant
            n == parts.len(),
            i <= n,
            out.deep_view() == nonblank(parts.deep_view().take(i as int)),
        decreases n - i,
    {
        let ghost prev = parts.deep_view().take(i as int);
        proof {
            assert(parts.deep_view().take(i + 1) =~~= prev.push(parts.deep_view()[i as int]));
            lemma_nonblank_push(prev, parts.deep_view()[i as int]);
        }
        let piece: &String = &parts[i];
        if !piece.as_str().is_empty() {
            let owned = piece.clone();
            out.push(owned);
            proof {
                assert(out.deep_view() =~~= nonblank(parts.deep_view().take(i + 1)));
            }
        }
        i = i + 1;
    }
    proof {
        assert(parts.deep_view().take(n as int) =~= parts.deep_view());
    }
    out
}

/// `parts` joined into one string with `sep` between consecutive parts.
pub(crate) fn join_strings(parts: &Vec<String>, sep: &str) -> (r: String)
    ensures
        r@ == join_with(parts.deep_view(), sep@),
{
    let mut out = String::new();
    let n = parts.len();
    let mut i: usize = 0;
    proof {
        assert(out@ =~= join_with(parts.deep_view().take(0), sep@));
    }
    while i < n
        invariant
            n == parts.len(),
            i <= n,
            out@ == join_with(parts.deep_view().take(i as int), sep@),
        decreases n - i,
    {
        let ghost prev = parts.deep_view().take(i as int);
        if i > 0 {
            out.append(sep);
        }
        let piece: &String = &parts[i];
        out.append(piece.as_str());
        proof {
            let cur = parts.deep_view().take(i + 1);
            assert(cur.drop_last() =~~= prev);
            assert(cur.last() == parts.deep_view()[i as int]);
            if i == 0 {
                assert(out@ =~= join_with(cur, sep@));
            } else {
                assert(out@ =~= join_with(cur, sep@));
            }
        }
        i = i + 1;
    }
    proof {
        assert(parts.deep_view().take(n as int) =~= parts.deep_view());
    }
    out
}

/// `list` holds a string with the same characters as `x`.
pub(crate) fn list_contains(list: &Vec<String>, x: &String) -> (r: bool)
    ensures
        r == list.deep_view().contains(x@),
{
    let n = list.len();
    let mut i: usize = 0;
    while i < n
        invariant
            n == list.len(),
            i <= n,
            forall|j: int| 0 <= j < i ==> list.deep_view()[j] != x@,
        decreases n - i,
    {
        let entry: &String = &list[i];
        if entry.eq(x) {
            proof {
                assert(list.deep_view()[i as int] == x@);
            }
            return true;
        }
        i = i + 1;
    }
    proof {
        assert(!list.deep_view().contains(x@));
    }
    false
}

/// Named result of `str::trim`: the input without leading and trailing
/// whitespace, a function of the characters alone.
pub uninterp spec fn trim_of(s: Seq<char>) -> Seq<char>;

/// Relies on `str::trim`: removes leading and trailing whitespace and
/// nothing else; its result depends on the input characters alone.
#[verifier::external_body]
pub(crate) fn trim_str(s: &str) -> (r: String)
    ensures
        r@ == trim_of(s@),
{
    s.trim().to_owned()
}

/// Named result of `str::to_lowercase`: the Unicode lowercase mapping of
/// the input, a function of the characters alone.
pub uninterp spec fn lower_of(s: Seq<char>) -> Seq<char>;

/// Relies on `str::to_lowercase`: the lowercase equivalent of the input
/// under the Unicode lowercase mapping; its result depends on the input
/// characters alone.
#[verifier::external_body]
pub(crate) fn to_lowercase_str(s: &str) -> (r: String)
    ensures
        r@ == lower_of(s@),
{
    s.to_lowercase()
}

} // verus!
