//! The diagnostic filter: splitting captured diagnostic text into lines,
//! removing the lines that begin with the trace prefix, and joining what
//! remains. The whole transformation is specified by [`clean_of`].

use vstd::prelude::*;
use vstd::string::*;
use crate::text::starts_with;

verus! {

/// The number of characters before the first newline of `s` (the length of
/// `s` when it holds none).
pub open spec fn newline_index(s: Seq<char>) -> nat
    decreases s.len(),
{
    if s.len() == 0 {
        0
    } else if s[0] == '\n' {
        0
    } else {
        1 + newline_index(s.drop_first())
    }
}

/// The lines of `s`: a newline character terminates a line, and a final
/// fragment without a terminator is a line of its own. Text that ends with
/// a newline therefore yields no extra empty line, and the empty text has
/// no lines at all.
pub open spec fn split_lines(s: Seq<char>) -> Seq<Seq<char>>
    decreases s.len(),
{
    if s.len() == 0 {
        Seq::empty()
    } else {
        let i = newline_index(s) as int;
        if i >= s.len() {
            seq![s]
        } else {
            seq![s.take(i)] + split_lines(s.skip(i + 1))
        }
    }
}

/// The lines joined back with a single newline between them; no trailing
/// newline is added.
pub open spec fn join_lines(ls: Seq<Seq<char>>) -> Seq<char>
    decreases ls.len(),
{
    if ls.len() == 0 {
        Seq::empty()
    } else if ls.len() == 1 {
        ls[0]
    } else {
        ls[0] + seq!['\n'] + join_lines(ls.drop_first())
    }
}

/// The lines of `s` that do not begin with the prefix `p`, in their
/// original order.
pub open spec fn kept_lines(s: Seq<char>, p: Seq<char>) -> Seq<Seq<char>> {
    split_lines(s).filter(|l: Seq<char>| !starts_with(l, p))
}

/// The clean diagnostic text: `s` with every line that begins with the
/// trace prefix `p` removed.
pub open spec fn clean_of(s: Seq<char>, p: Seq<char>) -> Seq<char> {
    join_lines(kept_lines(s, p))
}

pub proof fn lemma_newline_index(s: Seq<char>)
    ensures
        newline_index(s) <= s.len(),
        forall|k: int| 0 <= k < newline_index(s) ==> s[k] != '\n',
        newline_index(s) < s.len() ==> s[newline_index(s) as int] == '\n',
    decreases s.len(),
{
    if s.len() > 0 && s[0] != '\n' {
        let t = s.drop_first();
        lemma_newline_index(t);
        assert(forall|k: int| 0 <= k < t.len() ==> t[k] == s[k + 1]);
        assert forall|k: int| 0 <= k < newline_index(s) implies s[k] != '\n' by {
            if k > 0 {
                assert(t[k - 1] != '\n');
            }
        }
    }
}

pub proof fn lemma_newline_index_is(s: Seq<char>, m: int)
    requires
        0 <= m <= s.len(),
        forall|k: int| 0 <= k < m ==> s[k] != '\n',
        m < s.len() ==> s[m] == '\n',
    ensures
        newline_index(s) == m,
    decreases m,
{
    if m == 0 {
    } else {
        let t = s.drop_first();
        assert(forall|k: int| 0 <= k < t.len() ==> t[k] == s[k + 1]);
        lemma_newline_index_is(t, m - 1);
    }
}

proof fn lemma_filter_singleton(x: Seq<char>, pred: spec_fn(Seq<char>) -> bool)
    ensures
        seq![x].filter(pred) == (if pred(x) {
            seq![x]
        } else {
            Seq::<Seq<char>>::empty()
        }),
{
    reveal_with_fuel(Seq::filter, 2);
    assert(seq![x].drop_last() =~= Seq::<Seq<char>>::empty());
    assert(seq![x].last() == x);
    if pred(x) {
        assert(seq![x].filter(pred) =~= seq![x]);
    } else {
        assert(seq![x].filter(pred) =~= Seq::<Seq<char>>::empty());
    }
}

/// The text holds no newline character: it is a single line.
pub open spec fn newline_free(l: Seq<char>) -> bool {
    forall|k: int| 0 <= k < l.len() ==> l[k] != '\n'
}

pub proof fn lemma_split_lines_newline_free(s: Seq<char>)
    ensures
        forall|i: int|
            0 <= i < split_lines(s).len() ==> newline_free(#[trigger] split_lines(s)[i]),
    decreases s.len(),
{
    if s.len() > 0 {
        lemma_newline_index(s);
        let i = newline_index(s) as int;
        if i >= s.len() {
            assert(newline_free(s));
        } else {
            let head = s.take(i);
            assert(forall|k: int| 0 <= k < head.len() ==> head[k] == s[k]);
            assert(newline_free(head));
            lemma_split_lines_newline_free(s.skip(i + 1));
            assert(forall|j: int|
                1 <= j < split_lines(s).len() ==> split_lines(s)[j] == split_lines(
                    s.skip(i + 1),
                )[j - 1]);
        }
    }
}

proof fn lemma_newline_index_concat(a: Seq<char>, b: Seq<char>)
    requires
        newline_free(a),
    ensures
        newline_index(a + seq!['\n'] + b) == a.len(),
{
    let c = a + seq!['\n'] + b;
    assert(forall|k: int| 0 <= k < a.len() ==> c[k] == a[k]);
    assert(c[a.len() as int] == '\n');
    lemma_newline_index_is(c, a.len() as int);
}

/// Splitting recovers the lines that a join was made of, as long as the
/// lines hold no newline themselves and the last of them is not empty (a
/// trailing empty line leaves no trace in the joined text).
pub proof fn lemma_split_of_join(ls: Seq<Seq<char>>)
    requires
        ls.len() >= 1,
        forall|i: int| 0 <= i < ls.len() ==> newline_free(#[trigger] ls[i]),
        ls.last().len() > 0,
    ensures
        split_lines(join_lines(ls)) == ls,
    decreases ls.len(),
{
    if ls.len() == 1 {
        let j = join_lines(ls);
        assert(j == ls[0]);
        lemma_newline_index_is(j, j.len() as int);
        assert(split_lines(j) =~= ls);
    } else {
        let rest = ls.drop_first();
        let j = ls[0] + seq!['\n'] + join_lines(rest);
        assert(join_lines(ls) == j);
        lemma_newline_index_concat(ls[0], join_lines(rest));
        let i = ls[0].len() as int;
        assert(newline_index(j) == i);
        assert(j.len() > i);
        assert(j.take(i) =~= ls[0]);
        assert(j.skip(i + 1) =~= join_lines(rest));
        assert(forall|k: int| 0 <= k < rest.len() ==> rest[k] == ls[k + 1]);
        assert(rest.last() == ls.last());
        lemma_split_of_join(rest);
        assert(split_lines(j) == seq![ls[0]] + rest);
        assert(seq![ls[0]] + rest =~= ls);
    }
}

proof fn lemma_filter_all_kept(ls: Seq<Seq<char>>, pred: spec_fn(Seq<char>) -> bool)
    requires
        forall|i: int| 0 <= i < ls.len() ==> pred(#[trigger] ls[i]),
    ensures
        ls.filter(pred) == ls,
    decreases ls.len(),
{
    reveal(Seq::filter);
    if ls.len() > 0 {
        let head = ls.drop_last();
        assert(forall|i: int| 0 <= i < head.len() ==> head[i] == ls[i]);
        lemma_filter_all_kept(head, pred);
        assert(pred(ls.last()));
        assert(ls.filter(pred) =~= ls);
    } else {
        assert(ls.filter(pred) =~= ls);
    }
}

proof fn lemma_clean_of_empty(p: Seq<char>)
    ensures
        clean_of(Seq::<char>::empty(), p) == Seq::<char>::empty(),
{
    reveal_with_fuel(Seq::filter, 2);
    assert(split_lines(Seq::<char>::empty()) =~= Seq::<Seq<char>>::empty());
    assert(kept_lines(Seq::<char>::empty(), p) =~= Seq::<Seq<char>>::empty());
}

/// Filtering removes exactly the lines that begin with the prefix: no line
/// of the result begins with it, and every line of the original that does
/// not begin with it is still present. Order is preserved by construction,
/// `kept_lines` being a filter of `split_lines`.
pub proof fn lemma_kept_lines(s: Seq<char>, p: Seq<char>)
    ensures
        forall|i: int|
            0 <= i < kept_lines(s, p).len() ==> !starts_with(#[trigger] kept_lines(s, p)[i], p),
        forall|i: int|
            0 <= i < split_lines(s).len() && !starts_with(#[trigger] split_lines(s)[i], p)
                ==> kept_lines(s, p).contains(split_lines(s)[i]),
{
    let pred = |l: Seq<char>| !starts_with(l, p);
    let lines = split_lines(s);
    assert forall|i: int| 0 <= i < kept_lines(s, p).len() implies !starts_with(
        kept_lines(s, p)[i],
        p,
    ) by {
        lines.lemma_filter_pred(pred, i);
    }
    assert forall|i: int| 0 <= i < lines.len() && !starts_with(lines[i], p) implies kept_lines(
        s,
        p,
    ).contains(lines[i]) by {
        lines.lemma_filter_contains(pred, i);
    }
}

/// Filtering is idempotent: filtering the clean text again changes
/// nothing, since no remaining line begins with the prefix. The one
/// exception is a text whose last kept line is empty while another kept
/// line precedes it: the join then ends in a newline that a second split
/// no longer reads as an empty final line.
pub proof fn lemma_filter_idempotent(s: Seq<char>, p: Seq<char>)
    requires
        !(kept_lines(s, p).len() >= 2 && kept_lines(s, p).last().len() == 0),
    ensures
        clean_of(clean_of(s, p), p) == clean_of(s, p),
{
    let pred = |l: Seq<char>| !starts_with(l, p);
    let kept = kept_lines(s, p);
    if kept.len() == 0 {
        assert(clean_of(s, p) == Seq::<char>::empty());
        lemma_clean_of_empty(p);
    } else if kept.len() == 1 && kept[0].len() == 0 {
        assert(clean_of(s, p) == kept[0]);
        assert(kept[0] =~= Seq::<char>::empty());
        lemma_clean_of_empty(p);
    } else {
        assert(kept.last().len() > 0);
        let t = clean_of(s, p);
        lemma_split_lines_newline_free(s);
        assert forall|i: int| 0 <= i < kept.len() implies newline_free(#[trigger] kept[i]) by {
            split_lines(s).lemma_filter_contains_rev(pred, kept[i]);
            let j = choose|j: int|
                0 <= j < split_lines(s).len() && split_lines(s)[j] == kept[i];
            assert(newline_free(split_lines(s)[j]));
        }
        lemma_split_of_join(kept);
        assert(split_lines(t) == kept);
        assert forall|i: int| 0 <= i < kept.len() implies pred(#[trigger] kept[i]) by {
            split_lines(s).lemma_filter_pred(pred, i);
        }
        lemma_filter_all_kept(kept, pred);
        assert(kept_lines(t, p) == kept);
    }
}

/// Scan for the end of the line that starts at `lo`: the index of the next
/// newline, or the end of the string.
fn find_line_end(s: &str, lo: usize) -> (end: usize)
    requires
        lo <= s@.len(),
    ensures
        lo <= end <= s@.len(),
        newline_index(s@.skip(lo as int)) == end - lo,
        end < s@.len() ==> s@[end as int] == '\n',
        forall|k: int| lo <= k < end ==> s@[k] != '\n',
{
    let n = s.unicode_len();
    let mut i: usize = lo;
    while i < n && s.get_char(i) != '\n'
        invariant
            lo <= i <= n,
            n == s@.len(),
            forall|k: int| lo <= k < i ==> s@[k] != '\n',
        decreases n - i,
    {
        i = i + 1;
    }
    proof {
        let u = s@.skip(lo as int);
        assert(forall|k: int| 0 <= k < u.len() ==> u[k] == s@[k + lo]);
        lemma_newline_index_is(u, i - lo);
    }
    i
}

/// Does the line `s[lo .. end]` begin with the prefix `p`?
fn line_has_prefix(s: &str, lo: usize, end: usize, p: &str) -> (r: bool)
    requires
        lo <= end <= s@.len(),
    ensures
        r == starts_with(s@.subrange(lo as int, end as int), p@),
{
    let plen = p.unicode_len();
    if plen > end - lo {
        return false;
    }
    let ghost line = s@.subrange(lo as int, end as int);
    let mut k: usize = 0;
    while k < plen
        invariant
            0 <= k <= plen,
            plen == p@.len(),
            lo <= end <= s@.len(),
            plen <= end - lo,
            line == s@.subrange(lo as int, end as int),
            forall|m: int| 0 <= m < k ==> line[m] == p@[m],
        decreases plen - k,
    {
        if s.get_char(lo + k) != p.get_char(k) {
            assert(line[k as int] != p@[k as int]);
            assert(line.take(plen as int)[k as int] == line[k as int]);
            return false;
        }
        k = k + 1;
    }
    proof {
        assert(line.take(plen as int) =~= p@);
    }
    true
}

/// Filter the text from position `lo` on; also reports whether any line
/// was kept, which decides whether a joining newline is owed further out.
fn filter_from(s: &str, lo: usize, p: &str) -> (r: (String, bool))
    requires
        lo <= s@.len(),
    ensures
        r.0@ == clean_of(s@.skip(lo as int), p@),
        r.1 == (kept_lines(s@.skip(lo as int), p@).len() > 0),
    decreases s@.len() - lo,
{
    let ghost pred = |l: Seq<char>| !starts_with(l, p@);
    let n = s.unicode_len();
    if lo == n {
        proof {
            assert(s@.skip(lo as int) =~= Seq::<char>::empty());
            reveal(Seq::filter);
            assert(kept_lines(s@.skip(lo as int), p@) =~= Seq::<Seq<char>>::empty());
        }
        return (String::new(), false);
    }
    let ghost u = s@.skip(lo as int);
    let end = find_line_end(s, lo);
    proof {
        assert(u.len() == n - lo);
        assert(newline_index(u) == end - lo);
    }
    let keep = !line_has_prefix(s, lo, end, p);
    let ghost line = s@.subrange(lo as int, end as int);
    proof {
        assert(u.take((end - lo) as int) =~= line);
    }
    if end == n {
        // The line at `lo` is the last one.
        proof {
            assert(split_lines(u) == seq![u]);
            assert(u =~= line);
            lemma_filter_singleton(u, pred);
        }
        if keep {
            let out = s.substring_char(lo, end).to_owned();
            proof {
                assert(kept_lines(u, p@) == seq![line]);
                assert(join_lines(seq![line]) == line);
            }
            (out, true)
        } else {
            proof {
                assert(kept_lines(u, p@) =~= Seq::<Seq<char>>::empty());
            }
            (String::new(), false)
        }
    } else {
        let (rest, rest_any) = filter_from(s, end + 1, p);
        let ghost v = s@.skip(end + 1);
        proof {
            assert(u.skip((end - lo) as int + 1) =~= v);
            assert(split_lines(u) == seq![line] + split_lines(v));
            split_lines(v).lemma_filter_prepend(line, pred);
            assert(kept_lines(u, p@) == (if pred(line) {
                seq![line]
            } else {
                Seq::<Seq<char>>::empty()
            }) + kept_lines(v, p@));
        }
        if keep {
            let mut out = s.substring_char(lo, end).to_owned();
            let ghost kr = kept_lines(v, p@);
            proof {
                assert(kept_lines(u, p@) == seq![line] + kr);
                assert(seq![line] + Seq::<Seq<char>>::empty() =~= seq![line]);
            }
            if rest_any {
                out.append("\n");
                out.append(rest.as_str());
                proof {
                    reveal_strlit("\n");
                    assert("\n"@ =~= seq!['\n']);
                    assert((seq![line] + kr).drop_first() =~= kr);
                    assert((seq![line] + kr)[0] == line);
                    assert(join_lines(seq![line] + kr) == line + seq!['\n'] + join_lines(kr));
                }
            } else {
                proof {
                    assert(kr =~= Seq::<Seq<char>>::empty());
                    assert(kept_lines(u, p@) =~= seq![line]);
                    assert(join_lines(seq![line]) == line);
                }
            }
            (out, true)
        } else {
            proof {
                assert(Seq::<Seq<char>>::empty() + kept_lines(v, p@) =~= kept_lines(v, p@));
            }
            (rest, rest_any)
        }
    }
}

/// Remove from `trace` every line that begins with `prefix`, keeping the
/// remaining lines in order, joined by single newlines.
pub fn filter_trace(trace: &str, prefix: &str) -> (r: String)
    ensures
        r@ == clean_of(trace@, prefix@),
{
    let (out, _) = filter_from(trace, 0, prefix);
    proof {
        assert(trace@.skip(0) =~= trace@);
    }
    out
}

} // verus!
