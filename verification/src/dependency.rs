//! The dependency-specifier parser: turns a textual requirement
//! (`name[extra,...]op version`) into a structured value. Parsing is pure and
//! total over the specifier grammar: it succeeds exactly on the well-formed
//! specifiers and never panics.

use vstd::prelude::*;

use crate::error::Error;
use crate::text::{lemma_scan_from_is, scan_from, strs_view, substr};

verus! {

pub open spec fn is_alpha(c: char) -> bool {
    (('a' as u32) <= (c as u32) && (c as u32) <= ('z' as u32)) || (('A' as u32) <= (c as u32)
        && (c as u32) <= ('Z' as u32))
}

pub open spec fn is_digit(c: char) -> bool {
    ('0' as u32) <= (c as u32) && (c as u32) <= ('9' as u32)
}

/// Characters allowed in a package name (and in an extra) after its first
/// character.
pub open spec fn is_name_char(c: char) -> bool {
    is_alpha(c) || is_digit(c) || c == '-' || c == '_' || c == '.'
}

/// Characters allowed in the version text after the comparison operator.
pub open spec fn is_version_char(c: char) -> bool {
    is_alpha(c) || is_digit(c) || c == '.' || c == '*' || c == '+' || c == '-' || c == '_' || c
        == '!'
}

pub open spec fn name_charp() -> spec_fn(char) -> bool {
    |c: char| is_name_char(c)
}

pub open spec fn version_charp() -> spec_fn(char) -> bool {
    |c: char| is_version_char(c)
}

/// The comparison operator of a version constraint.
#[derive(Clone, Copy, Debug, PartialEq, Eq, Structural)]
pub enum VersionOp {
    Exact,
    NotEqual,
    GreaterEq,
    LessEq,
    Greater,
    Less,
    Compatible,
}

pub ghost struct VersionSpecG {
    pub op: VersionOp,
    pub value: Seq<char>,
}

/// A structured version constraint: an operator and the version text it
/// applies to.
pub struct VersionSpec {
    pub op: VersionOp,
    pub value: String,
}

impl View for VersionSpec {
    type V = VersionSpecG;

    open spec fn view(&self) -> VersionSpecG {
        VersionSpecG { op: self.op, value: self.value@ }
    }
}

#[verifier::ext_equal]
pub ghost struct DependencyG {
    pub raw: Seq<char>,
    pub name: Seq<char>,
    pub extras: Seq<Seq<char>>,
    pub version: Option<VersionSpecG>,
}

/// A parsed dependency specifier. `raw` is the exact input text; the other
/// fields are derived from it deterministically.
pub struct Dependency {
    pub raw: String,
    pub name: String,
    pub extras: Vec<String>,
    pub version: Option<VersionSpec>,
}

impl View for Dependency {
    type V = DependencyG;

    open spec fn view(&self) -> DependencyG {
        DependencyG {
            raw: self.raw@,
            name: self.name@,
            extras: strs_view(self.extras@),
            version: match self.version {
                Option::None => Option::None,
                Option::Some(v) => Option::Some(v@),
            },
        }
    }
}

/// Parse the bracketed extras list beginning at `i` (just past the `[`).
/// Returns the extras and the index just past the closing `]`.
pub open spec fn spec_parse_extras(s: Seq<char>, i: int) -> Option<(Seq<Seq<char>>, int)>
    decreases s.len() - i,
{
    if i < 0 || i > s.len() {
        None
    } else {
        let j = scan_from(s, i, name_charp());
        if j <= i {
            None
        } else if j < s.len() && s[j] == ',' {
            match spec_parse_extras(s, j + 1) {
                Option::None => Option::None,
                Option::Some((es, k)) => Option::Some((seq![s.subrange(i, j)] + es, k)),
            }
        } else if j < s.len() && s[j] == ']' {
            Option::Some((seq![s.subrange(i, j)], j + 1))
        } else {
            None
        }
    }
}

pub open spec fn is_two_char_op(a: char, b: char) -> bool {
    b == '=' && (a == '=' || a == '!' || a == '>' || a == '<' || a == '~')
}

pub open spec fn two_char_op(a: char) -> VersionOp {
    if a == '=' {
        VersionOp::Exact
    } else if a == '!' {
        VersionOp::NotEqual
    } else if a == '>' {
        VersionOp::GreaterEq
    } else if a == '<' {
        VersionOp::LessEq
    } else {
        VersionOp::Compatible
    }
}

/// The version text from `i` to the end, when it is nonempty and made of
/// version characters only.
pub open spec fn spec_version_value(s: Seq<char>, i: int, op: VersionOp) -> Option<
    Option<VersionSpecG>,
> {
    if i < s.len() && scan_from(s, i, version_charp()) == s.len() {
        Some(Some(VersionSpecG { op, value: s.subrange(i, s.len() as int) }))
    } else {
        None
    }
}

/// Parse the optional version constraint beginning at `i`: either the end of
/// the specifier, or a comparison operator followed by version text.
pub open spec fn spec_parse_version(s: Seq<char>, i: int) -> Option<Option<VersionSpecG>> {
    if i == s.len() {
        Some(None)
    } else if !(0 <= i < s.len()) {
        None
    } else if i + 2 <= s.len() && is_two_char_op(s[i], s[i + 1]) {
        spec_version_value(s, i + 2, two_char_op(s[i]))
    } else if s[i] == '>' {
        spec_version_value(s, i + 1, VersionOp::Greater)
    } else if s[i] == '<' {
        spec_version_value(s, i + 1, VersionOp::Less)
    } else {
        None
    }
}

/// The specifier grammar: a name (a letter followed by name characters), an
/// optional bracketed extras list, an optional version constraint. The parse
/// is `Some` exactly on the syntactically valid specifiers.
pub open spec fn spec_parse_dep(s: Seq<char>) -> Option<DependencyG> {
    if s.len() == 0 || !is_alpha(s[0]) {
        None
    } else {
        let n = scan_from(s, 1, name_charp());
        let name = s.subrange(0, n);
        if !(1 <= n <= s.len()) {
            None
        } else if n < s.len() && s[n] == '[' {
            match spec_parse_extras(s, n + 1) {
                Option::None => Option::None,
                Option::Some((extras, k)) => match spec_parse_version(s, k) {
                    Option::None => Option::None,
                    Option::Some(v) => Option::Some(
                        DependencyG { raw: s, name, extras, version: v },
                    ),
                },
            }
        } else {
            match spec_parse_version(s, n) {
                Option::None => Option::None,
                Option::Some(v) => Option::Some(
                    DependencyG { raw: s, name, extras: Seq::empty(), version: v },
                ),
            }
        }
    }
}

/// A dependency value is well formed when it is exactly what parsing its own
/// raw text yields.
pub open spec fn dep_wf(d: DependencyG) -> bool {
    spec_parse_dep(d.raw) == Some(d)
}

fn is_alpha_c(c: char) -> (r: bool)
    ensures
        r == is_alpha(c),
{
    let u = c as u32;
    (('a' as u32) <= u && u <= ('z' as u32)) || (('A' as u32) <= u && u <= ('Z' as u32))
}

fn is_name_char_c(c: char) -> (r: bool)
    ensures
        r == is_name_char(c),
{
    let u = c as u32;
    is_alpha_c(c) || (('0' as u32) <= u && u <= ('9' as u32)) || c == '-' || c == '_' || c == '.'
}

fn is_version_char_c(c: char) -> (r: bool)
    ensures
        r == is_version_char(c),
{
    let u = c as u32;
    is_alpha_c(c) || (('0' as u32) <= u && u <= ('9' as u32)) || c == '.' || c == '*' || c == '+'
        || c == '-' || c == '_' || c == '!'
}

/// First index at or after `i` that is not a name character.
fn scan_name(s: &str, i: usize) -> (r: usize)
    requires
        i <= s@.len(),
    ensures
        r == scan_from(s@, i as int, name_charp()),
        i <= r <= s@.len(),
{
    let n = s.unicode_len();
    let mut j: usize = i;
    while j < n
        invariant
            n == s@.len(),
            i <= j <= n,
            forall|k: int| i <= k < j ==> name_charp()(s@[k]),
        decreases n - j,
    {
        if !is_name_char_c(s.get_char(j)) {
            proof {
                lemma_scan_from_is(s@, i as int, name_charp(), j as int);
            }
            return j;
        }
        j = j + 1;
    }
    proof {
        lemma_scan_from_is(s@, i as int, name_charp(), n as int);
    }
    n
}

/// First index at or after `i` that is not a version character.
fn scan_version(s: &str, i: usize) -> (r: usize)
    requires
        i <= s@.len(),
    ensures
        r == scan_from(s@, i as int, version_charp()),
        i <= r <= s@.len(),
{
    let n = s.unicode_len();
    let mut j: usize = i;
    while j < n
        invariant
            n == s@.len(),
            i <= j <= n,
            forall|k: int| i <= k < j ==> version_charp()(s@[k]),
        decreases n - j,
    {
        if !is_version_char_c(s.get_char(j)) {
            proof {
                lemma_scan_from_is(s@, i as int, version_charp(), j as int);
            }
            return j;
        }
        j = j + 1;
    }
    proof {
        lemma_scan_from_is(s@, i as int, version_charp(), n as int);
    }
    n
}

/// Parse the optional version constraint beginning at `i`.
fn parse_version_part(s: &str, i: usize) -> (r: Result<Option<VersionSpec>, Error>)
    requires
        i <= s@.len(),
    ensures
        r is Ok <==> spec_parse_version(s@, i as int) is Some,
        r matches Ok(v) ==> spec_parse_version(s@, i as int) == Some(
            match v {
                Option::None => Option::None::<VersionSpecG>,
                Option::Some(vs) => Option::Some(vs@),
            },
        ),
        r matches Err(e) ==> e matches Error::DependencyParseError(m) && m@ == s@,
{
    let n = s.unicode_len();
    if i == n {
        return Ok(None);
    }
    let c = s.get_char(i);
    let two = if n >= 2 && i <= n - 2 {
        let c2 = s.get_char(i + 1);
        is_two_char_op_c(c, c2)
    } else {
        false
    };
    let (op, vi): (VersionOp, usize) = if two {
        (two_char_op_c(c), i + 2)
    } else if c == '>' {
        (VersionOp::Greater, i + 1)
    } else if c == '<' {
        (VersionOp::Less, i + 1)
    } else {
        return Err(Error::DependencyParseError(s.to_owned()));
    };
    let j = scan_version(s, vi);
    if vi < n && j == n {
        Ok(Some(VersionSpec { op, value: substr(s, vi, n) }))
    } else {
        Err(Error::DependencyParseError(s.to_owned()))
    }
}

fn is_two_char_op_c(a: char, b: char) -> (r: bool)
    ensures
        r == is_two_char_op(a, b),
{
    b == '=' && (a == '=' || a == '!' || a == '>' || a == '<' || a == '~')
}

fn two_char_op_c(a: char) -> (r: VersionOp)
    ensures
        r == two_char_op(a),
{
    if a == '=' {
        VersionOp::Exact
    } else if a == '!' {
        VersionOp::NotEqual
    } else if a == '>' {
        VersionOp::GreaterEq
    } else if a == '<' {
        VersionOp::LessEq
    } else {
        VersionOp::Compatible
    }
}

impl Dependency {
    /// Parse a textual requirement into a structured dependency. Succeeds
    /// exactly on the syntactically valid specifiers; the raw text of the
    /// result is the input itself.
    pub fn from_str(s: &str) -> (r: Result<Dependency, Error>)
        ensures
            r is Ok <==> spec_parse_dep(s@) is Some,
            r matches Ok(d) ==> d@ == spec_parse_dep(s@).unwrap(),
            r matches Ok(d) ==> d@.raw == s@ && dep_wf(d@),
            r matches Err(e) ==> e matches Error::DependencyParseError(m) && m@ == s@,
    {
        let n_all = s.unicode_len();
        if n_all == 0 {
            return Err(Error::DependencyParseError(s.to_owned()));
        }
        if !is_alpha_c(s.get_char(0)) {
            return Err(Error::DependencyParseError(s.to_owned()));
        }
        let n = scan_name(s, 1);
        let name = substr(s, 0, n);
        if n < n_all && s.get_char(n) == '[' {
            let (extras, k) = match parse_extras_part(s, n + 1) {
                Ok(p) => p,
                Err(e) => {
                    return Err(e);
                },
            };
            let version = match parse_version_part(s, k) {
                Ok(v) => v,
                Err(e) => {
                    return Err(e);
                },
            };
            let d = Dependency { raw: s.to_owned(), name, extras, version };
            proof {
                assert(d@ =~= spec_parse_dep(s@).unwrap());
            }
            Ok(d)
        } else {
            let version = match parse_version_part(s, n) {
                Ok(v) => v,
                Err(e) => {
                    return Err(e);
                },
            };
            let d = Dependency { raw: s.to_owned(), name, extras: Vec::new(), version };
            proof {
                assert(strs_view(d.extras@) =~= Seq::<Seq<char>>::empty());
                assert(d@ =~= spec_parse_dep(s@).unwrap());
            }
            Ok(d)
        }
    }

    /// The package name the specifier begins with.
    pub fn name(&self) -> (r: &String)
        ensures
            r@ == self@.name,
    {
        &self.name
    }

    /// The exact specifier text this value was parsed from.
    pub fn raw(&self) -> (r: &String)
        ensures
            r@ == self@.raw,
    {
        &self.raw
    }
}

/// Parse the extras list beginning at `i` (just past the `[`); returns the
/// extras and the index just past the closing `]`.
fn parse_extras_part(s: &str, i: usize) -> (r: Result<(Vec<String>, usize), Error>)
    requires
        i <= s@.len(),
    ensures
        r is Ok <==> spec_parse_extras(s@, i as int) is Some,
        r matches Ok((es, k)) ==> spec_parse_extras(s@, i as int) == Some(
            (strs_view(es@), k as int),
        ) && k <= s@.len(),
        r matches Err(e) ==> e matches Error::DependencyParseError(m) && m@ == s@,
{
    let n = s.unicode_len();
    let mut extras: Vec<String> = Vec::new();
    let mut cur: usize = i;
    loop
        invariant
            n == s@.len(),
            i <= cur <= n,
            match spec_parse_extras(s@, cur as int) {
                Option::None => spec_parse_extras(s@, i as int) is None,
                Option::Some((es, k)) => spec_parse_extras(s@, i as int) == Some(
                    (strs_view(extras@) + es, k),
                ),
            },
        decreases n - cur,
    {
        let j = scan_name(s, cur);
        if j == cur {
            return Err(Error::DependencyParseError(s.to_owned()));
        }
        let piece = substr(s, cur, j);
        if j < n && s.get_char(j) == ',' {
            let ghost old_extras = extras@;
            let ghost piece_v = s@.subrange(cur as int, j as int);
            extras.push(piece);
            proof {
                assert(strs_view(extras@) =~= strs_view(old_extras).push(piece_v));
                if spec_parse_extras(s@, j + 1) is Some {
                    let (es, k) = spec_parse_extras(s@, j + 1).unwrap();
                    assert(spec_parse_extras(s@, cur as int) == Some(
                        (seq![piece_v] + es, k),
                    ));
                    assert(strs_view(old_extras).push(piece_v) + es =~= strs_view(old_extras) + (
                    seq![piece_v] + es));
                } else {
                    assert(spec_parse_extras(s@, cur as int) is None);
                }
            }
            cur = j + 1;
        } else if j < n && s.get_char(j) == ']' {
            let ghost old_extras = extras@;
            extras.push(piece);
            proof {
                assert(strs_view(extras@) =~= strs_view(old_extras) + seq![
                    s@.subrange(cur as int, j as int),
                ]);
            }
            return Ok((extras, j + 1));
        } else {
            return Err(Error::DependencyParseError(s.to_owned()));
        }
    }
}

} // verus!
