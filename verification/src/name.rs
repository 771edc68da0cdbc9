//! Project-name derivation: the final path component of the workspace root,
//! and the importable (module-identifier) form of a project name.

use vstd::prelude::*;

use crate::dependency::{is_alpha, is_name_char};
use crate::error::Error;
use crate::text::substr;

verus! {

/// `s` with every trailing separator removed.
pub open spec fn strip_trailing_slashes(s: Seq<char>) -> Seq<char>
    decreases s.len(),
{
    if s.len() == 0 {
        s
    } else if s[s.len() - 1] == '/' {
        strip_trailing_slashes(s.drop_last())
    } else {
        s
    }
}

/// The suffix of `s` after its last separator.
pub open spec fn after_last_slash(s: Seq<char>) -> Seq<char>
    decreases s.len(),
{
    if s.len() == 0 {
        Seq::empty()
    } else if s[s.len() - 1] == '/' {
        Seq::empty()
    } else {
        after_last_slash(s.drop_last()).push(s[s.len() - 1])
    }
}

/// The final component of a path: the last nonempty segment, or nothing when
/// the path is empty or made of separators only.
pub open spec fn spec_last_component(s: Seq<char>) -> Option<Seq<char>> {
    if strip_trailing_slashes(s).len() == 0 {
        None
    } else {
        Some(after_last_slash(strip_trailing_slashes(s)))
    }
}

proof fn lemma_after_last_slash_is(t: Seq<char>, b: int)
    requires
        0 <= b <= t.len(),
        forall|k: int| b <= k < t.len() ==> t[k] != '/',
        b > 0 ==> t[b - 1] == '/',
    ensures
        after_last_slash(t) == t.subrange(b, t.len() as int),
    decreases t.len(),
{
    if b == t.len() {
        if t.len() == 0 {
            assert(after_last_slash(t) =~= t.subrange(b, t.len() as int));
        } else {
            assert(t[t.len() - 1] == '/');
            assert(after_last_slash(t) =~= t.subrange(b, t.len() as int));
        }
    } else {
        assert(t[t.len() - 1] != '/');
        lemma_after_last_slash_is(t.drop_last(), b);
        assert(t.drop_last().subrange(b, t.len() - 1) =~= t.subrange(b, t.len() - 1));
        assert(t.subrange(b, t.len() - 1).push(t[t.len() - 1]) =~= t.subrange(b, t.len() as int));
    }
}

/// The final component of a path. Equal suffixes give equal results: the
/// outcome depends on the last segment alone.
pub fn last_path_component(path: &str) -> (r: Result<String, Error>)
    ensures
        r is Ok <==> spec_last_component(path@) is Some,
        r matches Ok(c) ==> c@ == spec_last_component(path@).unwrap(),
        r matches Err(e) ==> e matches Error::InternalError(m) && m@
            == "path has no final component"@,
{
    let n = path.unicode_len();
    let mut e: usize = n;
    proof {
        assert(path@.subrange(0, n as int) =~= path@);
    }
    while e > 0 && path.get_char(e - 1) == '/'
        invariant
            e <= n,
            n == path@.len(),
            strip_trailing_slashes(path@) == strip_trailing_slashes(
                path@.subrange(0, e as int),
            ),
        decreases e,
    {
        proof {
            assert(path@.subrange(0, e as int).drop_last() =~= path@.subrange(0, e as int - 1));
        }
        e = e - 1;
    }
    if e == 0 {
        proof {
            assert(path@.subrange(0, 0) =~= Seq::<char>::empty());
        }
        return Err(Error::InternalError(String::from_str("path has no final component")));
    }
    proof {
        assert(strip_trailing_slashes(path@) == path@.subrange(0, e as int));
    }
    let mut b: usize = e;
    while b > 0 && path.get_char(b - 1) != '/'
        invariant
            b <= e <= n,
            n == path@.len(),
            forall|k: int| b <= k < e ==> path@[k] != '/',
        decreases b,
    {
        b = b - 1;
    }
    proof {
        let t = path@.subrange(0, e as int);
        assert(forall|k: int| b <= k < e ==> t[k] == path@[k]);
        lemma_after_last_slash_is(t, b as int);
        assert(t.subrange(b as int, e as int) =~= path@.subrange(b as int, e as int));
    }
    Ok(substr(path, b, e))
}

/// Name derivation is deterministic in the final segment: every path that
/// ends in a separator followed by the same nonempty, separator-free segment
/// yields that segment, whatever stands before the separator.
pub proof fn lemma_last_component_determined_by_suffix(p: Seq<char>, n: Seq<char>)
    requires
        n.len() > 0,
        forall|k: int| 0 <= k < n.len() ==> n[k] != '/',
    ensures
        spec_last_component(p + seq!['/'] + n) == Some(n),
{
    let s = p + seq!['/'] + n;
    assert(s[s.len() - 1] == n[n.len() - 1]);
    assert(strip_trailing_slashes(s) == s);
    assert(s[p.len() as int] == '/');
    assert(forall|k: int| p.len() + 1 <= k < s.len() ==> s[k] == n[k - p.len() - 1]);
    lemma_after_last_slash_is(s, p.len() + 1 as int);
    assert(s.subrange(p.len() + 1 as int, s.len() as int) =~= n);
}

/// Map one character to its importable form: separators become underscores.
pub open spec fn importable_char(c: char) -> char {
    if c == '-' || c == '.' {
        '_'
    } else {
        c
    }
}

/// The importable form of a project name: defined exactly for the
/// identifier-shaped names (a letter, then name characters), with hyphens and
/// dots mapped to underscores.
pub open spec fn spec_importable_name(s: Seq<char>) -> Option<Seq<char>> {
    if s.len() > 0 && is_alpha(s[0]) && (forall|k: int|
        0 <= k < s.len() ==> is_name_char(#[trigger] s[k])) {
        Some(s.map_values(|c: char| importable_char(c)))
    } else {
        None
    }
}

fn is_name_char_e(c: char) -> (r: bool)
    ensures
        r == is_name_char(c),
{
    let u = c as u32;
    (('a' as u32) <= u && u <= ('z' as u32)) || (('A' as u32) <= u && u <= ('Z' as u32)) || (('0'
        as u32) <= u && u <= ('9' as u32)) || c == '-' || c == '_' || c == '.'
}

fn is_alpha_e(c: char) -> (r: bool)
    ensures
        r == is_alpha(c),
{
    let u = c as u32;
    (('a' as u32) <= u && u <= ('z' as u32)) || (('A' as u32) <= u && u <= ('Z' as u32))
}

/// Render a project name importable, mapping `-` and `.` to `_`; fails on a
/// name that is not identifier-shaped.
pub fn importable_package_name(name: &str) -> (r: Result<String, Error>)
    ensures
        r is Ok <==> spec_importable_name(name@) is Some,
        r matches Ok(p) ==> p@ == spec_importable_name(name@).unwrap(),
        r matches Err(e) ==> e matches Error::InternalError(m) && m@
            == "the project name has no importable form"@,
{
    let n = name.unicode_len();
    if n == 0 || !is_alpha_e(name.get_char(0)) {
        return Err(
            Error::InternalError(String::from_str("the project name has no importable form")),
        );
    }
    let mut out = String::new();
    let mut seg: usize = 0;
    let mut i: usize = 0;
    proof {
        reveal_strlit("_");
        assert("_"@ =~= seq!['_']);
    }
    while i < n
        invariant
            seg <= i <= n,
            n == name@.len(),
            forall|k: int| 0 <= k < i ==> is_name_char(#[trigger] name@[k]),
            forall|k: int| seg <= k < i ==> name@[k] != '-' && name@[k] != '.',
            out@ == name@.subrange(0, seg as int).map_values(|c: char| importable_char(c)),
            "_"@ == seq!['_'],
        decreases n - i,
    {
        let c = name.get_char(i);
        if !is_name_char_e(c) {
            return Err(
                Error::InternalError(
                    String::from_str("the project name has no importable form"),
                ),
            );
        }
        if c == '-' || c == '.' {
            let piece = substr(name, seg, i);
            out.append(piece.as_str());
            out.append("_");
            proof {
                assert(out@ =~= name@.subrange(0, i as int + 1).map_values(
                    |c: char| importable_char(c),
                ));
            }
            seg = i + 1;
        }
        i = i + 1;
    }
    let piece = substr(name, seg, n);
    out.append(piece.as_str());
    proof {
        assert(out@ =~= name@.map_values(|c: char| importable_char(c)));
    }
    Ok(out)
}

/// The default entry-point string for an importable package name:
/// `<name>.main:main`.
pub open spec fn spec_entrypoint(importable: Seq<char>) -> Seq<char> {
    importable + ".main:main"@
}

/// Build the default entry-point string for an importable package name.
pub fn default_entrypoint_string(importable_name: &str) -> (r: String)
    ensures
        r@ == spec_entrypoint(importable_name@),
{
    let mut s = importable_name.to_owned();
    s.append(".main:main");
    s
}

} // verus!
