//! The metadata model: the in-memory representation of a project description
//! (name, version, description, dependencies, scripts, and the fixed
//! build-system table), its canonical serialization, and the parser that reads
//! the document back. Serializing, parsing and re-serializing a well-formed
//! value is the identity on the canonical text.

use vstd::prelude::*;

use crate::dependency::{dep_wf, spec_parse_dep, Dependency, DependencyG};
use crate::error::Error;
use crate::text::{
    all_lines_ok, find_char_from, find_from, lemma_find_char_from_is, lemma_split_unsplit,
    lemma_unsplit_push, line_ok, split_lines, str_eq, str_starts_with, strs_view, substr,
    unsplit_lines,
};

verus! {

// ---------------------------------------------------------------------------
// The model
// ---------------------------------------------------------------------------
/// One script entry: a command name mapped to an entry-point string.
pub struct Script {
    pub name: String,
    pub entrypoint: String,
}

impl View for Script {
    type V = (Seq<char>, Seq<char>);

    open spec fn view(&self) -> (Seq<char>, Seq<char>) {
        (self.name@, self.entrypoint@)
    }
}

#[verifier::ext_equal]
pub ghost struct MetadataG {
    pub name: Seq<char>,
    pub version: Seq<char>,
    pub description: Seq<char>,
    pub dependencies: Seq<DependencyG>,
    pub scripts: Seq<(Seq<char>, Seq<char>)>,
}

/// The project description: name, version, description, declared
/// dependencies, script entry points. The build-system table is fixed and
/// appears only in the serialized form.
pub struct Metadata {
    pub name: String,
    pub version: String,
    pub description: String,
    pub dependencies: Vec<Dependency>,
    pub scripts: Vec<Script>,
}

pub open spec fn deps_view(v: Seq<Dependency>) -> Seq<DependencyG> {
    v.map_values(|d: Dependency| d@)
}

pub open spec fn scripts_view(v: Seq<Script>) -> Seq<(Seq<char>, Seq<char>)> {
    v.map_values(|s: Script| s@)
}

impl View for Metadata {
    type V = MetadataG;

    open spec fn view(&self) -> MetadataG {
        MetadataG {
            name: self.name@,
            version: self.version@,
            description: self.description@,
            dependencies: deps_view(self.dependencies@),
            scripts: scripts_view(self.scripts@),
        }
    }
}

// ---------------------------------------------------------------------------
// Well-formedness
// ---------------------------------------------------------------------------
/// Characters that may stand inside a quoted value of the document.
pub open spec fn clean_char(c: char) -> bool {
    c != '\n' && c != '"'
}

pub open spec fn clean(s: Seq<char>) -> bool {
    forall|k: int| 0 <= k < s.len() ==> clean_char(#[trigger] s[k])
}

/// A script name: nonempty, with no space and no newline.
pub open spec fn key_ok(k: Seq<char>) -> bool {
    k.len() > 0 && forall|i: int| 0 <= i < k.len() ==> #[trigger] k[i] != ' ' && k[i] != '\n'
}

pub open spec fn keys_distinct(ss: Seq<(Seq<char>, Seq<char>)>) -> bool {
    forall|i: int, j: int| 0 <= i < j < ss.len() ==> (#[trigger] ss[i]).0 != (#[trigger] ss[j]).0
}

/// A metadata value whose canonical text parses back to the value itself:
/// quoted fields hold no quote or newline, every dependency is exactly the
/// parse of its own raw text, and script names are proper unique keys.
pub open spec fn wf(m: MetadataG) -> bool {
    &&& clean(m.name)
    &&& clean(m.version)
    &&& clean(m.description)
    &&& forall|i: int|
        0 <= i < m.dependencies.len() ==> dep_wf(#[trigger] m.dependencies[i]) && clean(
            m.dependencies[i].raw,
        )
    &&& forall|i: int|
        0 <= i < m.scripts.len() ==> key_ok((#[trigger] m.scripts[i]).0) && clean(m.scripts[i].1)
    &&& keys_distinct(m.scripts)
}

// ---------------------------------------------------------------------------
// The canonical document, line by line
// ---------------------------------------------------------------------------
pub open spec fn bs_line() -> Seq<char> {
    "[build-system]"@
}

pub open spec fn req_line() -> Seq<char> {
    "requires = [\"hatchling\"]"@
}

pub open spec fn backend_line() -> Seq<char> {
    "build-backend = \"hatchling.build\""@
}

pub open spec fn project_line() -> Seq<char> {
    "[project]"@
}

pub open spec fn scripts_header() -> Seq<char> {
    "[project.scripts]"@
}

pub open spec fn name_prefix() -> Seq<char> {
    "name = \""@
}

pub open spec fn version_prefix() -> Seq<char> {
    "version = \""@
}

pub open spec fn desc_prefix() -> Seq<char> {
    "description = \""@
}

pub open spec fn deps_prefix() -> Seq<char> {
    "dependencies = ["@
}

pub open spec fn quoted(s: Seq<char>) -> Seq<char> {
    seq!['"'] + s + seq!['"']
}

/// The inside of the dependency array: the raw specifiers, quoted and joined
/// with a comma and a space.
pub open spec fn deps_inner(rs: Seq<Seq<char>>) -> Seq<char>
    decreases rs.len(),
{
    if rs.len() == 0 {
        Seq::empty()
    } else if rs.len() == 1 {
        quoted(rs[0])
    } else {
        quoted(rs[0]) + ", "@ + deps_inner(rs.drop_first())
    }
}

pub open spec fn raws_of(ds: Seq<DependencyG>) -> Seq<Seq<char>> {
    ds.map_values(|d: DependencyG| d.raw)
}

pub open spec fn value_line(prefix: Seq<char>, v: Seq<char>) -> Seq<char> {
    prefix + v + seq!['"']
}

pub open spec fn deps_line(ds: Seq<DependencyG>) -> Seq<char> {
    deps_prefix() + deps_inner(raws_of(ds)) + seq![']']
}

pub open spec fn script_line(kv: (Seq<char>, Seq<char>)) -> Seq<char> {
    kv.0 + " = \""@ + kv.1 + seq!['"']
}

/// The canonical lines of the document: the fixed build-system table, the
/// project section, and the scripts section when any script is declared.
pub open spec fn lines_of(m: MetadataG) -> Seq<Seq<char>> {
    seq![
        bs_line(),
        req_line(),
        backend_line(),
        Seq::<char>::empty(),
        project_line(),
        value_line(name_prefix(), m.name),
        value_line(version_prefix(), m.version),
        value_line(desc_prefix(), m.description),
        deps_line(m.dependencies),
    ] + if m.scripts.len() == 0 {
        Seq::<Seq<char>>::empty()
    } else {
        seq![Seq::<char>::empty(), scripts_header()] + m.scripts.map_values(
            |kv: (Seq<char>, Seq<char>)| script_line(kv),
        )
    }
}

/// The canonical text of the document.
pub open spec fn doc_of(m: MetadataG) -> Seq<char> {
    unsplit_lines(lines_of(m))
}

/// The fresh-template value: empty name and description, version `0.0.1`, no
/// dependencies, no scripts.
pub open spec fn template_meta() -> MetadataG {
    MetadataG {
        name: Seq::empty(),
        version: "0.0.1"@,
        description: Seq::empty(),
        dependencies: Seq::empty(),
        scripts: Seq::empty(),
    }
}

// ---------------------------------------------------------------------------
// Rendering
// ---------------------------------------------------------------------------
/// Append `line` and a newline to `out`.
fn push_line(out: &mut String, line: &str)
    ensures
        final(out)@ == old(out)@ + line@ + seq!['\n'],
{
    out.append(line);
    out.append("\n");
    proof {
        reveal_strlit("\n");
        assert("\n"@ =~= seq!['\n']);
    }
}

/// Render `prefix + value + '"'` and append it as one line.
fn push_value_line(out: &mut String, prefix: &str, v: &str)
    ensures
        final(out)@ == old(out)@ + value_line(prefix@, v@) + seq!['\n'],
{
    let mut line = String::from_str(prefix);
    line.append(v);
    line.append("\"");
    proof {
        reveal_strlit("\"");
        assert("\""@ =~= seq!['"']);
        assert(line@ == value_line(prefix@, v@));
    }
    push_line(out, line.as_str());
}

/// `deps_inner` grows at the tail by a separator and one more quoted entry.
proof fn lemma_deps_inner_push(rs: Seq<Seq<char>>, r: Seq<char>)
    ensures
        deps_inner(rs.push(r)) == if rs.len() == 0 {
            quoted(r)
        } else {
            deps_inner(rs) + ", "@ + quoted(r)
        },
    decreases rs.len(),
{
    if rs.len() == 0 {
        assert(rs.push(r)[0] == r);
    } else if rs.len() == 1 {
        assert(rs.push(r).drop_first() =~= rs.drop_first().push(r));
        assert(rs.push(r).drop_first() =~= seq![r]);
        assert(deps_inner(seq![r]) == quoted(seq![r][0]));
        assert(seq![r][0] == r);
        assert(deps_inner(rs.push(r)) == quoted(rs[0]) + ", "@ + quoted(r));
    } else {
        assert(rs.push(r).drop_first() =~= rs.drop_first().push(r));
        lemma_deps_inner_push(rs.drop_first(), r);
        assert(deps_inner(rs.push(r)) == quoted(rs[0]) + ", "@ + (deps_inner(rs.drop_first())
            + ", "@ + quoted(r)));
        assert(quoted(rs[0]) + ", "@ + (deps_inner(rs.drop_first()) + ", "@ + quoted(r)) =~= (
        quoted(rs[0]) + ", "@ + deps_inner(rs.drop_first())) + ", "@ + quoted(r));
    }
}

/// Render the dependency array line.
fn render_deps_line(deps: &Vec<Dependency>) -> (r: String)
    ensures
        r@ == deps_line(deps_view(deps@)),
{
    let mut out = String::from_str("dependencies = [");
    let mut i: usize = 0;
    proof {
        assert(raws_of(deps_view(deps@.subrange(0, 0))) =~= Seq::<Seq<char>>::empty());
        assert(out@ =~= deps_prefix() + deps_inner(raws_of(deps_view(deps@.subrange(0, 0)))));
    }
    while i < deps.len()
        invariant
            i <= deps.len(),
            out@ == deps_prefix() + deps_inner(raws_of(deps_view(deps@.subrange(0, i as int)))),
        decreases deps.len() - i,
    {
        let ghost prev = raws_of(deps_view(deps@.subrange(0, i as int)));
        if i > 0 {
            out.append(", ");
        }
        out.append("\"");
        out.append(deps[i].raw.as_str());
        out.append("\"");
        proof {
            reveal_strlit("\"");
            assert("\""@ =~= seq!['"']);
            lemma_deps_inner_push(prev, deps@[i as int]@.raw);
            assert(raws_of(deps_view(deps@.subrange(0, i as int + 1))) =~= prev.push(
                deps@[i as int]@.raw,
            ));
            assert(out@ =~= deps_prefix() + deps_inner(prev.push(deps@[i as int]@.raw)));
        }
        i = i + 1;
    }
    out.append("]");
    proof {
        reveal_strlit("]");
        assert("]"@ =~= seq![']']);
        assert(deps@.subrange(0, deps@.len() as int) =~= deps@);
        assert(out@ =~= deps_line(deps_view(deps@)));
    }
    out
}

impl Metadata {
    /// The fresh-template metadata value.
    pub fn template() -> (r: Metadata)
        ensures
            r@ == template_meta(),
    {
        let m = Metadata {
            name: String::new(),
            version: String::from_str("0.0.1"),
            description: String::new(),
            dependencies: Vec::new(),
            scripts: Vec::new(),
        };
        proof {
            assert(deps_view(m.dependencies@) =~= Seq::<DependencyG>::empty());
            assert(scripts_view(m.scripts@) =~= Seq::<(Seq<char>, Seq<char>)>::empty());
            assert(m@ =~= template_meta());
        }
        m
    }

    /// Overwrite the project name; nothing else changes.
    pub fn set_project_name(&mut self, name: String)
        ensures
            final(self)@ == (MetadataG { name: name@, ..old(self)@ }),
    {
        self.name = name;
    }

    /// The project name.
    pub fn project_name(&self) -> (r: &String)
        ensures
            r@ == self@.name,
    {
        &self.name
    }

    /// Insert or overwrite one script entry; on a duplicate name the last
    /// write wins.
    pub fn add_script(&mut self, name: &str, entrypoint: &str)
        ensures
            final(self)@ == (MetadataG {
                scripts: spec_add_script(old(self)@.scripts, name@, entrypoint@),
                ..old(self)@
            }),
    {
        let mut i: usize = 0;
        while i < self.scripts.len()
            invariant
                self == old(self),
                i <= self.scripts.len(),
                forall|k: int| 0 <= k < i ==> (#[trigger] scripts_view(self.scripts@)[k]).0 != name@,
            decreases self.scripts.len() - i,
        {
            if str_eq(self.scripts[i].name.as_str(), name) {
                let mut entry = self.scripts.remove(i);
                entry.name = substr(name, 0, name.unicode_len());
                entry.entrypoint = substr(entrypoint, 0, entrypoint.unicode_len());
                self.scripts.insert(i, entry);
                proof {
                    lemma_add_script_at(old(self)@.scripts, name@, entrypoint@, i as int);
                    assert(scripts_view(self.scripts@) =~~= old(self)@.scripts.update(
                        i as int,
                        (name@, entrypoint@),
                    ));
                    assert(self@ =~= (MetadataG {
                        scripts: spec_add_script(old(self)@.scripts, name@, entrypoint@),
                        ..old(self)@
                    }));
                }
                return ;
            }
            i = i + 1;
        }
        self.scripts.push(
            Script {
                name: substr(name, 0, name.unicode_len()),
                entrypoint: substr(entrypoint, 0, entrypoint.unicode_len()),
            },
        );
        proof {
            lemma_add_script_absent(old(self)@.scripts, name@, entrypoint@);
            assert(scripts_view(self.scripts@) =~~= old(self)@.scripts.push((name@, entrypoint@)));
            assert(self@ =~= (MetadataG {
                scripts: spec_add_script(old(self)@.scripts, name@, entrypoint@),
                ..old(self)@
            }));
        }
    }

    /// The canonical serialization of this value.
    pub fn to_string_pretty(&self) -> (r: String)
        ensures
            r@ == doc_of(self@),
    {
        let mut out = String::new();
        let ghost mut done: Seq<Seq<char>> = Seq::empty();
        proof {
            reveal_strlit("");
            assert(out@ =~= unsplit_lines(done));
        }
        push_line(&mut out, "[build-system]");
        proof {
            lemma_unsplit_push(done, bs_line());
            done = done.push(bs_line());
        }
        push_line(&mut out, "requires = [\"hatchling\"]");
        proof {
            lemma_unsplit_push(done, req_line());
            done = done.push(req_line());
        }
        push_line(&mut out, "build-backend = \"hatchling.build\"");
        proof {
            lemma_unsplit_push(done, backend_line());
            done = done.push(backend_line());
        }
        push_line(&mut out, "");
        proof {
            reveal_strlit("");
            assert(""@ =~= Seq::<char>::empty());
            lemma_unsplit_push(done, Seq::<char>::empty());
            done = done.push(Seq::<char>::empty());
        }
        push_line(&mut out, "[project]");
        proof {
            lemma_unsplit_push(done, project_line());
            done = done.push(project_line());
        }
        push_value_line(&mut out, "name = \"", self.name.as_str());
        proof {
            lemma_unsplit_push(done, value_line(name_prefix(), self@.name));
            done = done.push(value_line(name_prefix(), self@.name));
        }
        push_value_line(&mut out, "version = \"", self.version.as_str());
        proof {
            lemma_unsplit_push(done, value_line(version_prefix(), self@.version));
            done = done.push(value_line(version_prefix(), self@.version));
        }
        push_value_line(&mut out, "description = \"", self.description.as_str());
        proof {
            lemma_unsplit_push(done, value_line(desc_prefix(), self@.description));
            done = done.push(value_line(desc_prefix(), self@.description));
        }
        let dl = render_deps_line(&self.dependencies);
        push_line(&mut out, dl.as_str());
        proof {
            lemma_unsplit_push(done, deps_line(self@.dependencies));
            done = done.push(deps_line(self@.dependencies));
        }
        if self.scripts.len() > 0 {
            push_line(&mut out, "");
            proof {
                reveal_strlit("");
                assert(""@ =~= Seq::<char>::empty());
                lemma_unsplit_push(done, Seq::<char>::empty());
                done = done.push(Seq::<char>::empty());
            }
            push_line(&mut out, "[project.scripts]");
            proof {
                lemma_unsplit_push(done, scripts_header());
                done = done.push(scripts_header());
            }
            let ghost base = done;
            let mut i: usize = 0;
            while i < self.scripts.len()
                invariant
                    i <= self.scripts.len(),
                    out@ == unsplit_lines(done),
                    done == base + scripts_view(self.scripts@).subrange(0, i as int).map_values(
                        |kv: (Seq<char>, Seq<char>)| script_line(kv),
                    ),
                decreases self.scripts.len() - i,
            {
                let mut line = String::from_str("");
                line.append(self.scripts[i].name.as_str());
                line.append(" = \"");
                line.append(self.scripts[i].entrypoint.as_str());
                line.append("\"");
                proof {
                    reveal_strlit("");
                    reveal_strlit("\"");
                    assert("\""@ =~= seq!['"']);
                    assert(line@ =~= script_line(scripts_view(self.scripts@)[i as int]));
                }
                push_line(&mut out, line.as_str());
                proof {
                    lemma_unsplit_push(done, script_line(scripts_view(self.scripts@)[i as int]));
                    done = done.push(script_line(scripts_view(self.scripts@)[i as int]));
                    assert(done =~= base + scripts_view(self.scripts@).subrange(
                        0,
                        i as int + 1,
                    ).map_values(|kv: (Seq<char>, Seq<char>)| script_line(kv)));
                }
                i = i + 1;
            }
            proof {
                assert(scripts_view(self.scripts@).subrange(
                    0,
                    self.scripts@.len() as int,
                ) =~= scripts_view(self.scripts@));
                assert(done =~= lines_of(self@));
            }
        } else {
            proof {
                assert(done =~= lines_of(self@));
            }
        }
        out
    }
}

/// The canonical text of a fresh project description carrying `name`.
pub fn default_pyproject_toml_contents(name: &str) -> (r: String)
    ensures
        r@ == doc_of(MetadataG { name: name@, ..template_meta() }),
{
    let mut m = Metadata::template();
    m.set_project_name(name.to_owned());
    m.to_string_pretty()
}

/// Replace the entry for `k`, or append one: the first entry named `k` is
/// overwritten in place; absent that, `(k, v)` goes to the end.
pub open spec fn spec_add_script(
    ss: Seq<(Seq<char>, Seq<char>)>,
    k: Seq<char>,
    v: Seq<char>,
) -> Seq<(Seq<char>, Seq<char>)>
    decreases ss.len(),
{
    if ss.len() == 0 {
        seq![(k, v)]
    } else if ss[0].0 == k {
        seq![(k, v)] + ss.drop_first()
    } else {
        seq![ss[0]] + spec_add_script(ss.drop_first(), k, v)
    }
}

proof fn lemma_add_script_at(ss: Seq<(Seq<char>, Seq<char>)>, k: Seq<char>, v: Seq<char>, i: int)
    requires
        0 <= i < ss.len(),
        ss[i].0 == k,
        forall|j: int| 0 <= j < i ==> (#[trigger] ss[j]).0 != k,
    ensures
        spec_add_script(ss, k, v) == ss.update(i, (k, v)),
    decreases i,
{
    if i == 0 {
        assert(seq![(k, v)] + ss.drop_first() =~= ss.update(0, (k, v)));
    } else {
        lemma_add_script_at(ss.drop_first(), k, v, i - 1);
        assert(seq![ss[0]] + ss.drop_first().update(i - 1, (k, v)) =~= ss.update(i, (k, v)));
    }
}

proof fn lemma_add_script_absent(ss: Seq<(Seq<char>, Seq<char>)>, k: Seq<char>, v: Seq<char>)
    requires
        forall|j: int| 0 <= j < ss.len() ==> (#[trigger] ss[j]).0 != k,
    ensures
        spec_add_script(ss, k, v) == ss.push((k, v)),
    decreases ss.len(),
{
    if ss.len() == 0 {
        assert(seq![(k, v)] =~= ss.push((k, v)));
    } else {
        lemma_add_script_absent(ss.drop_first(), k, v);
        assert(seq![ss[0]] + ss.drop_first().push((k, v)) =~= ss.push((k, v)));
    }
}


// ---------------------------------------------------------------------------
// Parsing
// ---------------------------------------------------------------------------
pub open spec fn no_quote(s: Seq<char>) -> bool {
    forall|k: int| 0 <= k < s.len() ==> s[k] != '"'
}

/// Parse one `prefix`-keyed quoted-value line: the prefix, the value (free of
/// quotes), one closing quote.
pub open spec fn spec_parse_value(l: Seq<char>, p: Seq<char>) -> Option<Seq<char>> {
    if l.len() >= p.len() + 1 && l.subrange(0, p.len() as int) == p && l[l.len() - 1] == '"'
        && no_quote(l.subrange(p.len() as int, l.len() - 1)) {
        Some(l.subrange(p.len() as int, l.len() - 1))
    } else {
        None
    }
}

/// Parse a comma-and-space separated list of quoted entries.
pub open spec fn spec_parse_quoted_list(s: Seq<char>) -> Option<Seq<Seq<char>>>
    decreases s.len(),
{
    if s.len() == 0 {
        Some(Seq::empty())
    } else if s[0] != '"' {
        None
    } else {
        let j = find_char_from(s, 1, '"');
        if j < 1 || j >= s.len() {
            None
        } else {
            let raw = s.subrange(1, j);
            if j + 1 == s.len() {
                Some(seq![raw])
            } else if j + 3 <= s.len() && s[j + 1] == ',' && s[j + 2] == ' ' {
                match spec_parse_quoted_list(s.subrange(j + 3, s.len() as int)) {
                    Option::None => Option::None,
                    Option::Some(r) => Option::Some(seq![raw] + r),
                }
            } else {
                None
            }
        }
    }
}

/// Parse every raw specifier of the list through the dependency grammar.
pub open spec fn spec_parse_raws(rs: Seq<Seq<char>>) -> Option<Seq<DependencyG>>
    decreases rs.len(),
{
    if rs.len() == 0 {
        Some(Seq::empty())
    } else {
        match spec_parse_dep(rs[0]) {
            Option::None => Option::None,
            Option::Some(d) => match spec_parse_raws(rs.drop_first()) {
                Option::None => Option::None,
                Option::Some(ds) => Option::Some(seq![d] + ds),
            },
        }
    }
}

pub open spec fn spec_parse_deps_line(l: Seq<char>) -> Option<Seq<DependencyG>> {
    if l.len() >= deps_prefix().len() + 1 && l.subrange(0, deps_prefix().len() as int)
        == deps_prefix() && l[l.len() - 1] == ']' {
        match spec_parse_quoted_list(l.subrange(deps_prefix().len() as int, l.len() - 1)) {
            Option::None => Option::None,
            Option::Some(rs) => spec_parse_raws(rs),
        }
    } else {
        None
    }
}

/// Parse one script line: the name up to the first space, then `= "`, then
/// the entry point, then the closing quote.
pub open spec fn spec_parse_script_line(l: Seq<char>) -> Option<(Seq<char>, Seq<char>)> {
    let j = find_char_from(l, 0, ' ');
    if 1 <= j && j + 5 <= l.len() && l[j + 1] == '=' && l[j + 2] == ' ' && l[j + 3] == '"' && l[l.len()
        - 1] == '"' && no_quote(l.subrange(j + 4, l.len() - 1)) {
        Some((l.subrange(0, j), l.subrange(j + 4, l.len() - 1)))
    } else {
        None
    }
}

pub open spec fn spec_parse_script_lines(ls: Seq<Seq<char>>) -> Option<Seq<(Seq<char>, Seq<char>)>>
    decreases ls.len(),
{
    if ls.len() == 0 {
        Some(Seq::empty())
    } else {
        match spec_parse_script_line(ls[0]) {
            Option::None => Option::None,
            Option::Some(kv) => match spec_parse_script_lines(ls.drop_first()) {
                Option::None => Option::None,
                Option::Some(r) => Option::Some(seq![kv] + r),
            },
        }
    }
}

/// The scripts section: absent, or a blank line, the section header, and the
/// script lines to the end.
pub open spec fn spec_parse_scripts_part(ls: Seq<Seq<char>>) -> Option<
    Seq<(Seq<char>, Seq<char>)>,
> {
    if ls.len() == 0 {
        Some(Seq::empty())
    } else if ls.len() >= 2 && ls[0] == Seq::<char>::empty() && ls[1] == scripts_header() {
        spec_parse_script_lines(ls.skip(2))
    } else {
        None
    }
}

pub open spec fn is_name_line(l: Seq<char>) -> bool {
    l.len() >= name_prefix().len() && l.subrange(0, name_prefix().len() as int) == name_prefix()
}

pub open spec fn spec_parse_tail(ls: Seq<Seq<char>>, i: int, name: Seq<char>) -> Option<MetadataG> {
    if 0 <= i && i + 3 <= ls.len() {
        let v = spec_parse_value(ls[i], version_prefix());
        let d = spec_parse_value(ls[i + 1], desc_prefix());
        let deps = spec_parse_deps_line(ls[i + 2]);
        let scr = spec_parse_scripts_part(ls.skip(i + 3));
        if v is Some && d is Some && deps is Some && scr is Some {
            Some(
                MetadataG {
                    name,
                    version: v.unwrap(),
                    description: d.unwrap(),
                    dependencies: deps.unwrap(),
                    scripts: scr.unwrap(),
                },
            )
        } else {
            None
        }
    } else {
        None
    }
}

/// The document grammar at the line level: the fixed build-system table, the
/// project section (its name line may be absent), the optional scripts
/// section.
pub open spec fn spec_parse_lines(ls: Seq<Seq<char>>) -> Option<MetadataG> {
    if ls.len() >= 5 && ls[0] == bs_line() && ls[1] == req_line() && ls[2] == backend_line()
        && ls[3] == Seq::<char>::empty() && ls[4] == project_line() {
        if ls.len() >= 6 && is_name_line(ls[5]) {
            match spec_parse_value(ls[5], name_prefix()) {
                Option::None => Option::None,
                Option::Some(n) => spec_parse_tail(ls, 6, n),
            }
        } else {
            spec_parse_tail(ls, 5, Seq::empty())
        }
    } else {
        None
    }
}

/// The whole document grammar: newline-terminated lines, then the line-level
/// grammar.
pub open spec fn spec_parse_doc(s: Seq<char>) -> Option<MetadataG> {
    match split_lines(s) {
        Option::None => Option::None,
        Option::Some(ls) => spec_parse_lines(ls),
    }
}

fn parse_value_exec(line: &str, prefix: &str) -> (r: Option<String>)
    ensures
        r is Some <==> spec_parse_value(line@, prefix@) is Some,
        r matches Some(v) ==> spec_parse_value(line@, prefix@) == Some(v@),
{
    let ll = line.unicode_len();
    let pl = prefix.unicode_len();
    if ll <= pl {
        return None;
    }
    if !str_starts_with(line, prefix) {
        return None;
    }
    if line.get_char(ll - 1) != '"' {
        return None;
    }
    let q = find_from(line, pl, '"');
    if q != ll - 1 {
        proof {
            assert(line@.subrange(pl as int, ll - 1)[q - pl] == '"');
        }
        return None;
    }
    Some(substr(line, pl, ll - 1))
}

fn parse_quoted_list_exec(s: &str, pos: usize) -> (r: Option<Vec<String>>)
    requires
        pos <= s@.len(),
    ensures
        r is Some <==> spec_parse_quoted_list(s@.subrange(pos as int, s@.len() as int)) is Some,
        r matches Some(v) ==> spec_parse_quoted_list(s@.subrange(pos as int, s@.len() as int))
            == Some(strs_view(v@)),
    decreases s@.len() - pos,
{
    let n = s.unicode_len();
    let ghost suf = s@.subrange(pos as int, n as int);
    if pos == n {
        proof {
            assert(suf =~= Seq::<char>::empty());
            assert(strs_view(Seq::<String>::empty()) =~= Seq::<Seq<char>>::empty());
        }
        return Some(Vec::new());
    }
    if s.get_char(pos) != '"' {
        return None;
    }
    let j = find_from(s, pos + 1, '"');
    proof {
        assert(forall|k: int| 1 <= k < j - pos ==> suf[k] == s@[pos + k] && suf[k] != '"');
        if j < n {
            assert(suf[j - pos] == '"');
            lemma_find_char_from_is(suf, 1, '"', j - pos);
        } else {
            lemma_find_char_from_is(suf, 1, '"', n - pos as int);
        }
    }
    if j == n {
        return None;
    }
    let raw = substr(s, pos + 1, j);
    proof {
        assert(suf.subrange(1, j - pos) =~= s@.subrange(pos as int + 1, j as int));
    }
    if j + 1 == n {
        let mut v: Vec<String> = Vec::new();
        v.push(raw);
        proof {
            assert(strs_view(v@) =~= seq![suf.subrange(1, j - pos)]);
        }
        return Some(v);
    }
    if n - j >= 3 && s.get_char(j + 1) == ',' && s.get_char(j + 2) == ' ' {
        proof {
            assert(suf[j - pos + 1] == s@[j as int + 1]);
            assert(suf[j - pos + 2] == s@[j as int + 2]);
            assert(suf.subrange(j - pos + 3, suf.len() as int) =~= s@.subrange(
                j as int + 3,
                n as int,
            ));
        }
        let rest = match parse_quoted_list_exec(s, j + 3) {
            Some(v) => v,
            None => {
                return None;
            },
        };
        let mut out = rest;
        out.insert(0, raw);
        proof {
            assert(strs_view(out@) =~= seq![suf.subrange(1, j - pos)] + strs_view(out@.drop_first()));
        }
        return Some(out);
    }
    proof {
        if j - pos + 3 <= suf.len() {
            assert(suf[j - pos + 1] == s@[j as int + 1]);
            assert(suf[j - pos + 2] == s@[j as int + 2]);
        }
    }
    None
}

fn parse_raws_exec(raws: &Vec<String>, start: usize) -> (r: Option<Vec<Dependency>>)
    requires
        start <= raws@.len(),
    ensures
        r is Some <==> spec_parse_raws(strs_view(raws@).skip(start as int)) is Some,
        r matches Some(v) ==> spec_parse_raws(strs_view(raws@).skip(start as int)) == Some(
            deps_view(v@),
        ),
    decreases raws@.len() - start,
{
    let ghost sk = strs_view(raws@).skip(start as int);
    if start == raws.len() {
        proof {
            assert(sk =~= Seq::<Seq<char>>::empty());
            assert(deps_view(Seq::<Dependency>::empty()) =~= Seq::<DependencyG>::empty());
        }
        return Some(Vec::new());
    }
    proof {
        assert(sk[0] == raws@[start as int]@);
        assert(sk.drop_first() =~= strs_view(raws@).skip(start as int + 1));
    }
    let d = match Dependency::from_str(raws[start].as_str()) {
        Ok(d) => d,
        Err(_) => {
            return None;
        },
    };
    let rest = match parse_raws_exec(raws, start + 1) {
        Some(v) => v,
        None => {
            return None;
        },
    };
    let mut out = rest;
    out.insert(0, d);
    proof {
        assert(deps_view(out@) =~= seq![out@[0]@] + deps_view(out@.drop_first()));
    }
    Some(out)
}

fn parse_deps_line_exec(line: &str) -> (r: Option<Vec<Dependency>>)
    ensures
        r is Some <==> spec_parse_deps_line(line@) is Some,
        r matches Some(v) ==> spec_parse_deps_line(line@) == Some(deps_view(v@)),
{
    let ll = line.unicode_len();
    let pl = "dependencies = [".unicode_len();
    proof {
        assert("dependencies = ["@ == deps_prefix());
    }
    if ll <= pl {
        return None;
    }
    if !str_starts_with(line, "dependencies = [") {
        return None;
    }
    if line.get_char(ll - 1) != ']' {
        return None;
    }
    let mid = substr(line, pl, ll - 1);
    proof {
        assert(mid@.subrange(0, mid@.len() as int) =~= line@.subrange(pl as int, ll - 1));
    }
    let raws = match parse_quoted_list_exec(mid.as_str(), 0) {
        Some(v) => v,
        None => {
            return None;
        },
    };
    proof {
        assert(strs_view(raws@).skip(0) =~= strs_view(raws@));
    }
    let deps = match parse_raws_exec(&raws, 0) {
        Some(v) => v,
        None => {
            return None;
        },
    };
    Some(deps)
}

fn parse_script_line_exec(line: &str) -> (r: Option<Script>)
    ensures
        r is Some <==> spec_parse_script_line(line@) is Some,
        r matches Some(sc) ==> spec_parse_script_line(line@) == Some(sc@),
{
    let ll = line.unicode_len();
    let j = find_from(line, 0, ' ');
    if j < 1 || ll < 5 || j > ll - 5 {
        return None;
    }
    if line.get_char(j + 1) != '=' {
        return None;
    }
    if line.get_char(j + 2) != ' ' {
        return None;
    }
    if line.get_char(j + 3) != '"' {
        return None;
    }
    if line.get_char(ll - 1) != '"' {
        return None;
    }
    let q = find_from(line, j + 4, '"');
    if q != ll - 1 {
        proof {
            assert(line@.subrange(j as int + 4, ll - 1)[q - j - 4] == '"');
        }
        return None;
    }
    Some(Script { name: substr(line, 0, j), entrypoint: substr(line, j + 4, ll - 1) })
}

fn parse_script_lines_exec(lines: &Vec<String>, start: usize) -> (r: Option<Vec<Script>>)
    requires
        start <= lines@.len(),
    ensures
        r is Some <==> spec_parse_script_lines(strs_view(lines@).skip(start as int)) is Some,
        r matches Some(v) ==> spec_parse_script_lines(strs_view(lines@).skip(start as int))
            == Some(scripts_view(v@)),
    decreases lines@.len() - start,
{
    let ghost sk = strs_view(lines@).skip(start as int);
    if start == lines.len() {
        proof {
            assert(sk =~= Seq::<Seq<char>>::empty());
            assert(scripts_view(Seq::<Script>::empty()) =~= Seq::<(Seq<char>, Seq<char>)>::empty());
        }
        return Some(Vec::new());
    }
    proof {
        assert(sk[0] == lines@[start as int]@);
        assert(sk.drop_first() =~= strs_view(lines@).skip(start as int + 1));
    }
    let sc = match parse_script_line_exec(lines[start].as_str()) {
        Some(sc) => sc,
        None => {
            return None;
        },
    };
    let rest = match parse_script_lines_exec(lines, start + 1) {
        Some(v) => v,
        None => {
            return None;
        },
    };
    let mut out = rest;
    out.insert(0, sc);
    proof {
        assert(scripts_view(out@) =~= seq![out@[0]@] + scripts_view(out@.drop_first()));
    }
    Some(out)
}

fn split_lines_exec(s: &str) -> (r: Option<Vec<String>>)
    ensures
        r is Some <==> split_lines(s@) is Some,
        r matches Some(v) ==> split_lines(s@) == Some(strs_view(v@)),
{
    let n = s.unicode_len();
    let mut lines: Vec<String> = Vec::new();
    let mut pos: usize = 0;
    proof {
        assert(s@.subrange(0, n as int) =~= s@);
    }
    loop
        invariant
            n == s@.len(),
            pos <= n,
            ({
                let suf = split_lines(s@.subrange(pos as int, n as int));
                match suf {
                    Option::None => split_lines(s@) is None,
                    Option::Some(rest) => split_lines(s@) == Some(strs_view(lines@) + rest),
                }
            }),
        decreases n - pos,
    {
        let ghost suf = s@.subrange(pos as int, n as int);
        if pos == n {
            proof {
                assert(suf =~= Seq::<char>::empty());
                assert(strs_view(lines@) + Seq::<Seq<char>>::empty() =~= strs_view(lines@));
            }
            return Some(lines);
        }
        let j = find_from(s, pos, '\n');
        proof {
            assert(forall|k: int| 0 <= k < j - pos ==> suf[k] == s@[pos + k] && suf[k] != '\n');
            if j < n {
                assert(suf[j - pos] == '\n');
                lemma_find_char_from_is(suf, 0, '\n', j - pos);
            } else {
                lemma_find_char_from_is(suf, 0, '\n', n - pos as int);
            }
        }
        if j == n {
            return None;
        }
        let line = substr(s, pos, j);
        let ghost old_lines = lines@;
        lines.push(line);
        proof {
            assert(suf.subrange(0, j - pos) =~= s@.subrange(pos as int, j as int));
            assert(suf.subrange(j - pos + 1, suf.len() as int) =~= s@.subrange(
                j as int + 1,
                n as int,
            ));
            if split_lines(s@.subrange(j as int + 1, n as int)) is Some {
                let rest = split_lines(s@.subrange(j as int + 1, n as int)).unwrap();
                assert(split_lines(suf) == Some(seq![s@.subrange(pos as int, j as int)] + rest));
                assert(strs_view(lines@) + rest =~= strs_view(old_lines) + (seq![
                    s@.subrange(pos as int, j as int),
                ] + rest));
            } else {
                assert(split_lines(suf) is None);
            }
        }
        pos = j + 1;
    }
}

impl Metadata {
    /// Parse the text of a project description. Succeeds exactly on the
    /// texts that follow the document grammar.
    pub fn from_str(s: &str) -> (r: Result<Metadata, Error>)
        ensures
            r is Ok <==> spec_parse_doc(s@) is Some,
            r matches Ok(m) ==> m@ == spec_parse_doc(s@).unwrap(),
            r is Err ==> r == Err::<Metadata, Error>(Error::MetadataParseError),
    {
        let lines = match split_lines_exec(s) {
            Some(v) => v,
            None => {
                return Err(Error::MetadataParseError);
            },
        };
        let ghost ls = strs_view(lines@);
        let nl = lines.len();
        if nl < 5 {
            return Err(Error::MetadataParseError);
        }
        if !str_eq(lines[0].as_str(), "[build-system]") {
            return Err(Error::MetadataParseError);
        }
        if !str_eq(lines[1].as_str(), "requires = [\"hatchling\"]") {
            return Err(Error::MetadataParseError);
        }
        if !str_eq(lines[2].as_str(), "build-backend = \"hatchling.build\"") {
            return Err(Error::MetadataParseError);
        }
        proof {
            reveal_strlit("");
            assert(""@ =~= Seq::<char>::empty());
        }
        if !str_eq(lines[3].as_str(), "") {
            return Err(Error::MetadataParseError);
        }
        if !str_eq(lines[4].as_str(), "[project]") {
            return Err(Error::MetadataParseError);
        }
        let (name, idx): (String, usize) = if nl >= 6 && str_starts_with(
            lines[5].as_str(),
            "name = \"",
        ) {
            match parse_value_exec(lines[5].as_str(), "name = \"") {
                Some(v) => (v, 6),
                None => {
                    return Err(Error::MetadataParseError);
                },
            }
        } else {
            (String::new(), 5)
        };
        if nl < idx + 3 {
            return Err(Error::MetadataParseError);
        }
        let version = match parse_value_exec(lines[idx].as_str(), "version = \"") {
            Some(v) => v,
            None => {
                return Err(Error::MetadataParseError);
            },
        };
        let description = match parse_value_exec(lines[idx + 1].as_str(), "description = \"") {
            Some(v) => v,
            None => {
                return Err(Error::MetadataParseError);
            },
        };
        let dependencies = match parse_deps_line_exec(lines[idx + 2].as_str()) {
            Some(v) => v,
            None => {
                return Err(Error::MetadataParseError);
            },
        };
        let scripts: Vec<Script> = if nl == idx + 3 {
            proof {
                assert(ls.skip(idx as int + 3) =~= Seq::<Seq<char>>::empty());
                assert(scripts_view(Seq::<Script>::empty()) =~= Seq::<
                    (Seq<char>, Seq<char>),
                >::empty());
            }
            Vec::new()
        } else {
            if nl < idx + 5 {
                return Err(Error::MetadataParseError);
            }
            if !str_eq(lines[idx + 3].as_str(), "") {
                return Err(Error::MetadataParseError);
            }
            if !str_eq(lines[idx + 4].as_str(), "[project.scripts]") {
                return Err(Error::MetadataParseError);
            }
            proof {
                assert(ls.skip(idx as int + 3)[0] == ls[idx as int + 3]);
                assert(ls.skip(idx as int + 3)[1] == ls[idx as int + 4]);
                assert(ls.skip(idx as int + 3).skip(2) =~= ls.skip(idx as int + 5));
            }
            match parse_script_lines_exec(&lines, idx + 5) {
                Some(v) => v,
                None => {
                    return Err(Error::MetadataParseError);
                },
            }
        };
        let m = Metadata { name, version, description, dependencies, scripts };
        proof {
            assert(m@ =~= spec_parse_doc(s@).unwrap());
        }
        Ok(m)
    }
}


// ---------------------------------------------------------------------------
// The round trip: parsing undoes serialization
// ---------------------------------------------------------------------------
proof fn lemma_parse_value_inv(p: Seq<char>, v: Seq<char>)
    requires
        no_quote(v),
    ensures
        spec_parse_value(value_line(p, v), p) == Some(v),
{
    let l = value_line(p, v);
    assert(l.subrange(0, p.len() as int) =~= p);
    assert(l[l.len() - 1] == '"');
    assert(l.subrange(p.len() as int, l.len() - 1) =~= v);
}

proof fn lemma_quoted_list_inv(rs: Seq<Seq<char>>)
    requires
        forall|i: int| 0 <= i < rs.len() ==> no_quote(#[trigger] rs[i]),
    ensures
        spec_parse_quoted_list(deps_inner(rs)) == Some(rs),
    decreases rs.len(),
{
    if rs.len() == 0 {
    } else if rs.len() == 1 {
        let s = deps_inner(rs);
        let r0 = rs[0];
        assert(s == quoted(r0));
        assert(s[0] == '"');
        assert(forall|k: int| 1 <= k < r0.len() + 1 ==> s[k] == r0[k - 1] && s[k] != '"');
        assert(s[r0.len() + 1 as int] == '"');
        lemma_find_char_from_is(s, 1, '"', r0.len() + 1 as int);
        assert(s.subrange(1, r0.len() + 1 as int) =~= r0);
        assert(seq![s.subrange(1, r0.len() + 1 as int)] =~= rs);
    } else {
        let s = deps_inner(rs);
        let r0 = rs[0];
        let rest = deps_inner(rs.drop_first());
        assert(s == quoted(r0) + ", "@ + rest);
        reveal_strlit(", ");
        assert(", "@.len() == 2);
        assert(s[0] == '"');
        assert(forall|k: int| 1 <= k < r0.len() + 1 ==> s[k] == r0[k - 1] && s[k] != '"');
        let j = r0.len() + 1 as int;
        assert(s[j] == '"');
        lemma_find_char_from_is(s, 1, '"', j);
        assert(rest.len() >= 2) by {
            if rs.drop_first().len() == 1 {
                assert(rest == quoted(rs.drop_first()[0]));
            } else {
                assert(rest == quoted(rs.drop_first()[0]) + ", "@ + deps_inner(
                    rs.drop_first().drop_first(),
                ));
            }
        }
        assert(s[j + 1] == ", "@[0]);
        assert(s[j + 2] == ", "@[1]);
        assert(", "@[0] == ',' && ", "@[1] == ' ');
        assert(s.subrange(j + 3, s.len() as int) =~= rest);
        lemma_quoted_list_inv(rs.drop_first());
        assert(s.subrange(1, j) =~= r0);
        assert(seq![s.subrange(1, j)] + rs.drop_first() =~= rs);
    }
}

proof fn lemma_parse_raws_inv(ds: Seq<DependencyG>)
    requires
        forall|i: int| 0 <= i < ds.len() ==> dep_wf(#[trigger] ds[i]),
    ensures
        spec_parse_raws(raws_of(ds)) == Some(ds),
    decreases ds.len(),
{
    if ds.len() == 0 {
        assert(raws_of(ds) =~= Seq::<Seq<char>>::empty());
    } else {
        assert(raws_of(ds)[0] == ds[0].raw);
        assert(spec_parse_dep(ds[0].raw) == Some(ds[0]));
        assert(raws_of(ds).drop_first() =~= raws_of(ds.drop_first()));
        lemma_parse_raws_inv(ds.drop_first());
        assert(seq![ds[0]] + ds.drop_first() =~= ds);
    }
}

proof fn lemma_deps_line_inv(ds: Seq<DependencyG>)
    requires
        forall|i: int|
            0 <= i < ds.len() ==> dep_wf(#[trigger] ds[i]) && clean(ds[i].raw),
    ensures
        spec_parse_deps_line(deps_line(ds)) == Some(ds),
{
    let l = deps_line(ds);
    assert(l.subrange(0, deps_prefix().len() as int) =~= deps_prefix());
    assert(l[l.len() - 1] == ']');
    assert(l.subrange(deps_prefix().len() as int, l.len() - 1) =~= deps_inner(raws_of(ds)));
    assert forall|i: int| 0 <= i < raws_of(ds).len() implies no_quote(#[trigger] raws_of(ds)[i]) by {
        assert(raws_of(ds)[i] == ds[i].raw);
        assert(clean(ds[i].raw));
    }
    lemma_quoted_list_inv(raws_of(ds));
    lemma_parse_raws_inv(ds);
}

proof fn lemma_script_line_inv(kv: (Seq<char>, Seq<char>))
    requires
        key_ok(kv.0),
        clean(kv.1),
    ensures
        spec_parse_script_line(script_line(kv)) == Some(kv),
{
    let l = script_line(kv);
    reveal_strlit(" = \"");
    assert(" = \""@.len() == 4);
    assert(" = \""@[0] == ' ' && " = \""@[1] == '=' && " = \""@[2] == ' ' && " = \""@[3]
        == '"');
    let j = kv.0.len() as int;
    assert(forall|k: int| 0 <= k < j ==> l[k] == kv.0[k] && l[k] != ' ');
    assert(l[j] == ' ');
    lemma_find_char_from_is(l, 0, ' ', j);
    assert(l[j + 1] == '=' && l[j + 2] == ' ' && l[j + 3] == '"');
    assert(l[l.len() - 1] == '"');
    assert(l.subrange(j + 4, l.len() - 1) =~= kv.1);
    assert(l.subrange(0, j) =~= kv.0);
}

proof fn lemma_script_lines_inv(ss: Seq<(Seq<char>, Seq<char>)>)
    requires
        forall|i: int| 0 <= i < ss.len() ==> key_ok((#[trigger] ss[i]).0) && clean(ss[i].1),
    ensures
        spec_parse_script_lines(
            ss.map_values(|kv: (Seq<char>, Seq<char>)| script_line(kv)),
        ) == Some(ss),
    decreases ss.len(),
{
    let ls = ss.map_values(|kv: (Seq<char>, Seq<char>)| script_line(kv));
    if ss.len() == 0 {
        assert(ls =~= Seq::<Seq<char>>::empty());
    } else {
        assert(ls[0] == script_line(ss[0]));
        lemma_script_line_inv(ss[0]);
        assert(ls.drop_first() =~= ss.drop_first().map_values(
            |kv: (Seq<char>, Seq<char>)| script_line(kv),
        ));
        lemma_script_lines_inv(ss.drop_first());
        assert(seq![ss[0]] + ss.drop_first() =~= ss);
    }
}

proof fn lemma_line_ok_concat(a: Seq<char>, b: Seq<char>)
    requires
        line_ok(a),
        line_ok(b),
    ensures
        line_ok(a + b),
{
    assert forall|k: int| 0 <= k < (a + b).len() implies (a + b)[k] != '\n' by {
        if k < a.len() {
            assert((a + b)[k] == a[k]);
        } else {
            assert((a + b)[k] == b[k - a.len()]);
        }
    }
}

proof fn lemma_deps_inner_ok(rs: Seq<Seq<char>>)
    requires
        forall|i: int| 0 <= i < rs.len() ==> line_ok(#[trigger] rs[i]),
    ensures
        line_ok(deps_inner(rs)),
    decreases rs.len(),
{
    reveal_strlit(", ");
    assert(line_ok(seq!['"']));
    if rs.len() == 0 {
    } else if rs.len() == 1 {
        lemma_line_ok_concat(seq!['"'], rs[0]);
        lemma_line_ok_concat(seq!['"'] + rs[0], seq!['"']);
    } else {
        lemma_line_ok_concat(seq!['"'], rs[0]);
        lemma_line_ok_concat(seq!['"'] + rs[0], seq!['"']);
        assert(line_ok(", "@));
        lemma_line_ok_concat(quoted(rs[0]), ", "@);
        lemma_deps_inner_ok(rs.drop_first());
        lemma_line_ok_concat(quoted(rs[0]) + ", "@, deps_inner(rs.drop_first()));
    }
}

proof fn lemma_lines_of_ok(m: MetadataG)
    requires
        wf(m),
    ensures
        all_lines_ok(lines_of(m)),
{
    reveal_strlit("[build-system]");
    reveal_strlit("requires = [\"hatchling\"]");
    reveal_strlit("build-backend = \"hatchling.build\"");
    reveal_strlit("[project]");
    reveal_strlit("[project.scripts]");
    reveal_strlit("name = \"");
    reveal_strlit("version = \"");
    reveal_strlit("description = \"");
    reveal_strlit("dependencies = [");
    reveal_strlit(" = \"");
    assert(line_ok(bs_line()));
    assert(line_ok(req_line()));
    assert(line_ok(backend_line()));
    assert(line_ok(project_line()));
    assert(line_ok(scripts_header()));
    assert(line_ok(Seq::<char>::empty()));
    assert(line_ok(seq!['"']));
    assert(line_ok(seq![']']));
    lemma_line_ok_concat(name_prefix(), m.name);
    lemma_line_ok_concat(name_prefix() + m.name, seq!['"']);
    lemma_line_ok_concat(version_prefix(), m.version);
    lemma_line_ok_concat(version_prefix() + m.version, seq!['"']);
    lemma_line_ok_concat(desc_prefix(), m.description);
    lemma_line_ok_concat(desc_prefix() + m.description, seq!['"']);
    assert forall|i: int|
        0 <= i < raws_of(m.dependencies).len() implies line_ok(
        #[trigger] raws_of(m.dependencies)[i],
    ) by {
        assert(raws_of(m.dependencies)[i] == m.dependencies[i].raw);
        assert(clean(m.dependencies[i].raw));
    }
    lemma_deps_inner_ok(raws_of(m.dependencies));
    lemma_line_ok_concat(deps_prefix(), deps_inner(raws_of(m.dependencies)));
    lemma_line_ok_concat(deps_prefix() + deps_inner(raws_of(m.dependencies)), seq![']']);
    let ls = lines_of(m);
    assert forall|i: int| 0 <= i < ls.len() implies #[trigger] line_ok(ls[i]) by {
        if i >= 9 {
            if i <= 10 {
                assert(ls[9] == Seq::<char>::empty() && ls[10] == scripts_header());
            } else {
                let kv = m.scripts[i - 11];
                assert(ls[i] == script_line(kv));
                assert(key_ok(kv.0) && clean(kv.1));
                lemma_line_ok_concat(kv.0, " = \""@);
                lemma_line_ok_concat(kv.0 + " = \""@, kv.1);
                lemma_line_ok_concat(kv.0 + " = \""@ + kv.1, seq!['"']);
            }
        }
    }
}

proof fn lemma_parse_lines_of(m: MetadataG)
    requires
        wf(m),
    ensures
        spec_parse_lines(lines_of(m)) == Some(m),
{
    let ls = lines_of(m);
    assert(ls[0] == bs_line() && ls[1] == req_line() && ls[2] == backend_line() && ls[3]
        == Seq::<char>::empty() && ls[4] == project_line());
    assert(ls[5] == value_line(name_prefix(), m.name));
    assert(ls[6] == value_line(version_prefix(), m.version));
    assert(ls[7] == value_line(desc_prefix(), m.description));
    assert(ls[8] == deps_line(m.dependencies));
    assert(ls[5].subrange(0, name_prefix().len() as int) =~= name_prefix());
    assert(is_name_line(ls[5]));
    lemma_parse_value_inv(name_prefix(), m.name);
    lemma_parse_value_inv(version_prefix(), m.version);
    lemma_parse_value_inv(desc_prefix(), m.description);
    lemma_deps_line_inv(m.dependencies);
    if m.scripts.len() == 0 {
        assert(ls.skip(9) =~= Seq::<Seq<char>>::empty());
        assert(spec_parse_scripts_part(ls.skip(9)) == Some(Seq::<(Seq<char>, Seq<char>)>::empty()));
    } else {
        let sk = ls.skip(9);
        assert(sk =~= seq![Seq::<char>::empty(), scripts_header()] + m.scripts.map_values(
            |kv: (Seq<char>, Seq<char>)| script_line(kv),
        ));
        assert(sk[0] == Seq::<char>::empty() && sk[1] == scripts_header());
        assert(sk.skip(2) =~= m.scripts.map_values(|kv: (Seq<char>, Seq<char>)| script_line(kv)));
        lemma_script_lines_inv(m.scripts);
    }
    assert(spec_parse_tail(ls, 6, m.name) == Some(m)) by {
        assert(spec_parse_tail(ls, 6, m.name).unwrap() =~= m);
    }
}

/// The round trip: the canonical text of a well-formed metadata value parses
/// back to that value exactly, so serialize, parse and re-serialize is the
/// identity on canonical documents.
pub proof fn lemma_serialize_parse_round_trip(m: MetadataG)
    requires
        wf(m),
    ensures
        spec_parse_doc(doc_of(m)) == Some(m),
{
    lemma_lines_of_ok(m);
    lemma_split_unsplit(lines_of(m));
    lemma_parse_lines_of(m);
}

} // verus!
