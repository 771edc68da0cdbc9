//! Character-level utilities shared by the metadata document and the
//! dependency-specifier grammars: scanning, comparison, extraction, and the
//! line discipline of the project-description file.

use vstd::prelude::*;

verus! {

/// First index at or after `i` where `c` occurs in `s`; `s.len()` if none.
pub open spec fn find_char_from(s: Seq<char>, i: int, c: char) -> int
    decreases s.len() - i,
{
    if i < 0 || i >= s.len() {
        s.len() as int
    } else if s[i] == c {
        i
    } else {
        find_char_from(s, i + 1, c)
    }
}

/// The first occurrence is at `m` exactly when nothing before `m` matches
/// and `m` is a match or the end.
pub proof fn lemma_find_char_from_is(s: Seq<char>, i: int, c: char, m: int)
    requires
        0 <= i <= m <= s.len(),
        forall|k: int| i <= k < m ==> s[k] != c,
        m < s.len() ==> s[m] == c,
    ensures
        find_char_from(s, i, c) == m,
    decreases m - i,
{
    if i < m {
        lemma_find_char_from_is(s, i + 1, c, m);
    }
}

/// First index at or after `i` where `p` stops holding; `s.len()` if it holds
/// to the end.
pub open spec fn scan_from(s: Seq<char>, i: int, p: spec_fn(char) -> bool) -> int
    decreases s.len() - i,
{
    if i < 0 || i >= s.len() {
        s.len() as int
    } else if !p(s[i]) {
        i
    } else {
        scan_from(s, i + 1, p)
    }
}

pub proof fn lemma_scan_from(s: Seq<char>, i: int, p: spec_fn(char) -> bool)
    requires
        0 <= i <= s.len(),
    ensures
        i <= scan_from(s, i, p) <= s.len(),
        scan_from(s, i, p) < s.len() ==> !p(s[scan_from(s, i, p)]),
        forall|k: int| i <= k < scan_from(s, i, p) ==> p(s[k]),
    decreases s.len() - i,
{
    if i < s.len() && p(s[i]) {
        lemma_scan_from(s, i + 1, p);
    }
}

pub proof fn lemma_scan_from_is(s: Seq<char>, i: int, p: spec_fn(char) -> bool, m: int)
    requires
        0 <= i <= m <= s.len(),
        forall|k: int| i <= k < m ==> p(s[k]),
        m < s.len() ==> !p(s[m]),
    ensures
        scan_from(s, i, p) == m,
    decreases m - i,
{
    if i < m {
        lemma_scan_from_is(s, i + 1, p, m);
    }
}

/// Exact character-wise equality of two string slices.
pub fn str_eq(a: &str, b: &str) -> (r: bool)
    ensures
        r == (a@ == b@),
{
    let la = a.unicode_len();
    let lb = b.unicode_len();
    if la != lb {
        return false;
    }
    let mut i: usize = 0;
    while i < la
        invariant
            la == a@.len(),
            la == b@.len(),
            0 <= i <= la,
            forall|k: int| 0 <= k < i ==> a@[k] == b@[k],
        decreases la - i,
    {
        if a.get_char(i) != b.get_char(i) {
            return false;
        }
        i = i + 1;
    }
    proof {
        assert(a@ =~= b@);
    }
    true
}

/// Whether `s` begins with `p`.
pub fn str_starts_with(s: &str, p: &str) -> (r: bool)
    ensures
        r == (s@.len() >= p@.len() && s@.subrange(0, p@.len() as int) == p@),
{
    let ls = s.unicode_len();
    let lp = p.unicode_len();
    if ls < lp {
        return false;
    }
    let mut i: usize = 0;
    while i < lp
        invariant
            ls == s@.len(),
            lp == p@.len(),
            lp <= ls,
            0 <= i <= lp,
            forall|k: int| 0 <= k < i ==> s@[k] == p@[k],
        decreases lp - i,
    {
        if s.get_char(i) != p.get_char(i) {
            proof {
                assert(s@.subrange(0, lp as int)[i as int] != p@[i as int]);
            }
            return false;
        }
        i = i + 1;
    }
    proof {
        assert(s@.subrange(0, lp as int) =~= p@);
    }
    true
}

/// A fresh `String` holding the characters of `s` from `from` to `to`.
pub fn substr(s: &str, from: usize, to: usize) -> (r: String)
    requires
        from <= to <= s@.len(),
    ensures
        r@ == s@.subrange(from as int, to as int),
{
    let piece = s.substring_char(from, to);
    String::from_str(piece)
}

/// First index at or after `i` holding `c`, as executable code.
pub fn find_from(s: &str, i: usize, c: char) -> (r: usize)
    requires
        i <= s@.len(),
    ensures
        r == find_char_from(s@, i as int, c),
        i <= r <= s@.len(),
        r < s@.len() ==> s@[r as int] == c,
        forall|k: int| i <= k < r ==> s@[k] != c,
{
    let n = s.unicode_len();
    let mut j: usize = i;
    while j < n
        invariant
            n == s@.len(),
            i <= j <= n,
            forall|k: int| i <= k < j ==> s@[k] != c,
        decreases n - j,
    {
        if s.get_char(j) == c {
            proof {
                lemma_find_char_from_is(s@, i as int, c, j as int);
            }
            return j;
        }
        j = j + 1;
    }
    proof {
        lemma_find_char_from_is(s@, i as int, c, n as int);
    }
    n
}

/// A line may not contain the line terminator itself.
pub open spec fn line_ok(l: Seq<char>) -> bool {
    forall|k: int| 0 <= k < l.len() ==> l[k] != '\n'
}

pub open spec fn all_lines_ok(ls: Seq<Seq<char>>) -> bool {
    forall|i: int| 0 <= i < ls.len() ==> #[trigger] line_ok(ls[i])
}

/// The canonical text of a sequence of lines: each line followed by one
/// newline.
pub open spec fn unsplit_lines(ls: Seq<Seq<char>>) -> Seq<char>
    decreases ls.len(),
{
    if ls.len() == 0 {
        Seq::empty()
    } else {
        ls[0] + seq!['\n'] + unsplit_lines(ls.drop_first())
    }
}

/// Split a text into its newline-terminated lines; `None` when the text does
/// not end in a newline.
pub open spec fn split_lines(s: Seq<char>) -> Option<Seq<Seq<char>>>
    decreases s.len(),
{
    if s.len() == 0 {
        Some(Seq::empty())
    } else {
        let j = find_char_from(s, 0, '\n');
        if j < 0 || j >= s.len() {
            None
        } else {
            match split_lines(s.subrange(j + 1, s.len() as int)) {
                Option::None => Option::None,
                Option::Some(rest) => Option::Some(seq![s.subrange(0, j)] + rest),
            }
        }
    }
}

/// Appending one line extends the unsplit text by that line and a newline.
pub proof fn lemma_unsplit_push(ls: Seq<Seq<char>>, l: Seq<char>)
    ensures
        unsplit_lines(ls.push(l)) == unsplit_lines(ls) + l + seq!['\n'],
    decreases ls.len(),
{
    if ls.len() == 0 {
        assert(ls.push(l).drop_first() =~= Seq::<Seq<char>>::empty());
        assert(ls.push(l)[0] == l);
        assert(unsplit_lines(ls.push(l)) == l + seq!['\n'] + unsplit_lines(
            Seq::<Seq<char>>::empty(),
        ));
        assert(unsplit_lines(ls.push(l)) == l + seq!['\n'] + Seq::<char>::empty());
        assert(l + seq!['\n'] + Seq::<char>::empty() =~= unsplit_lines(ls) + l + seq!['\n']);
    } else {
        assert(ls.push(l).drop_first() =~= ls.drop_first().push(l));
        lemma_unsplit_push(ls.drop_first(), l);
        assert(ls.push(l)[0] == ls[0]);
        assert(unsplit_lines(ls.push(l)) == ls[0] + seq!['\n'] + (unsplit_lines(ls.drop_first())
            + l + seq!['\n']));
        assert(ls[0] + seq!['\n'] + (unsplit_lines(ls.drop_first()) + l + seq!['\n']) =~= (ls[0]
            + seq!['\n'] + unsplit_lines(ls.drop_first())) + l + seq!['\n']);
    }
}

/// A `Vec` of lines, seen as a sequence of character sequences.
pub open spec fn strs_view(v: Seq<String>) -> Seq<Seq<char>> {
    v.map_values(|x: String| x@)
}

/// Splitting undoes unsplitting, for any sequence of proper lines.
pub proof fn lemma_split_unsplit(ls: Seq<Seq<char>>)
    requires
        all_lines_ok(ls),
    ensures
        split_lines(unsplit_lines(ls)) == Some(ls),
    decreases ls.len(),
{
    if ls.len() == 0 {
    } else {
        let s = unsplit_lines(ls);
        let l0 = ls[0];
        let rest = unsplit_lines(ls.drop_first());
        assert(line_ok(l0));
        assert(s == l0 + seq!['\n'] + rest);
        assert(forall|k: int| 0 <= k < l0.len() ==> s[k] == l0[k] && s[k] != '\n');
        assert(s[l0.len() as int] == '\n');
        lemma_find_char_from_is(s, 0, '\n', l0.len() as int);
        assert(s.subrange(0, l0.len() as int) =~= l0);
        assert(s.subrange(l0.len() as int + 1, s.len() as int) =~= rest);
        lemma_split_unsplit(ls.drop_first());
        assert(seq![l0] + ls.drop_first() =~= ls);
    }
}

} // verus!
