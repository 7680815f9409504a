//! The YAML frontmatter of a SKILL.md file, read the way OpenGoose reads
//! it: line by line, `key: value` pairs at the top level, and an indented
//! `metadata:` block whose `internal: true` hides a skill.

use vstd::prelude::*;

use crate::text::{
    chars_eq_str, chars_of, find, find_first, first_pos, has_prefix, lemma_first_pos_bounds,
    position_of, slice_range, string_of, trim, trim_char, trim_char_vec, trim_start, trim_vec,
    is_ws, trim_char_end, trim_char_start, trim_end,
};

verus! {

// ---------------------------------------------------------------------------
// Extracting the frontmatter
// ---------------------------------------------------------------------------

/// The frontmatter of a SKILL.md text: what stands between the opening
/// `---` (after leading white space) and the next line that starts with
/// `---`; nothing when the text does not open with `---` or never closes.
pub open spec fn frontmatter_of(content: Seq<char>) -> Option<Seq<char>> {
    let t = trim_start(content);
    if !has_prefix(t, "---"@) {
        None
    } else {
        let rest = t.skip(3);
        match find_first(rest, "\n---"@) {
            Some(end) => Some(rest.take(end)),
            None => None,
        }
    }
}

/// The frontmatter of a SKILL.md text, if it has one.
pub fn extract_frontmatter(content: &str) -> (res: Option<String>)
    ensures
        match res {
            Some(f) => frontmatter_of(content@) == Some(f@),
            None => frontmatter_of(content@) is None,
        },
{
    let cs = chars_of(content);
    let start = crate::text::trim_start_index(&cs);
    let t = slice_range(&cs, start, cs.len());
    if !crate::text::starts_with_str(&t, "---") {
        return None;
    }
    assert("---"@.len() == 3) by {
        reveal_strlit("---");
    }
    let rest = slice_range(&t, 3, t.len());
    assert(rest@ =~= t@.skip(3));
    let pat = chars_of("\n---");
    match find(&rest, &pat) {
        Some(end) => {
            let body = slice_range(&rest, 0, end);
            assert(body@ =~= rest@.take(end as int));
            Some(string_of(&body))
        },
        None => None,
    }
}

// ---------------------------------------------------------------------------
// Lines
// ---------------------------------------------------------------------------

/// `l` without one trailing carriage return.
pub open spec fn strip_cr(l: Seq<char>) -> Seq<char> {
    if l.len() > 0 && l.last() == '\r' {
        l.drop_last()
    } else {
        l
    }
}

/// The lines of `s` as `str::lines` gives them: split at each `\n`, with a
/// `\r` before the `\n` removed, and no empty line after a final `\n`.
pub open spec fn lines_of(s: Seq<char>) -> Seq<Seq<char>>
    decreases s.len(),
{
    if s.len() == 0 {
        Seq::empty()
    } else {
        let p = first_pos(s, '\n');
        if p >= s.len() {
            seq![s]
        } else {
            proof {
                lemma_first_pos_bounds(s, '\n');
            }
            seq![strip_cr(s.take(p))] + lines_of(s.skip(p + 1))
        }
    }
}

/// The lines of `s`.
pub fn split_lines(s: &[char]) -> (res: Vec<Vec<char>>)
    ensures
        res@.map_values(|l: Vec<char>| l@) == lines_of(s@),
{
    let mut res: Vec<Vec<char>> = Vec::new();
    let mut start: usize = 0;
    assert(s@.skip(0) =~= s@);
    while start < s.len()
        invariant
            start <= s@.len(),
            res@.map_values(|l: Vec<char>| l@) + lines_of(s@.skip(start as int)) == lines_of(s@),
        decreases s@.len() - start,
    {
        let ghost prev = res@.map_values(|l: Vec<char>| l@);
        let rest = slice_range(s, start, s.len());
        assert(rest@ =~= s@.skip(start as int));
        let p = position_of(&rest, '\n');
        if p < rest.len() {
            let mut end = p;
            if end > 0 && rest[end - 1] == '\r' {
                end = end - 1;
            }
            let line = slice_range(&rest, 0, end);
            proof {
                lemma_first_pos_bounds(rest@, '\n');
                assert(line@ =~= strip_cr(rest@.take(p as int)));
                assert(rest@.skip(p + 1) =~= s@.skip(start + p + 1));
            }
            res.push(line);
            start = start + p + 1;
            proof {
                assert(res@.map_values(|l: Vec<char>| l@) =~= prev.push(line@));
                assert(lines_of(rest@) == seq![line@] + lines_of(s@.skip(start as int)));
                assert(prev.push(line@) + lines_of(s@.skip(start as int)) =~= prev + (seq![line@]
                    + lines_of(s@.skip(start as int))));
            }
        } else {
            proof {
                lemma_first_pos_bounds(rest@, '\n');
            }
            res.push(rest);
            start = s.len();
            proof {
                assert(lines_of(s@.skip(start as int)) =~= Seq::<Seq<char>>::empty());
                assert(res@.map_values(|l: Vec<char>| l@) =~= prev.push(rest@));
                assert(prev.push(rest@) + Seq::<Seq<char>>::empty() =~= prev + seq![rest@]);
            }
        }
    }
    assert(lines_of(s@.skip(start as int)) =~= Seq::<Seq<char>>::empty());
    assert(res@.map_values(|l: Vec<char>| l@) + Seq::<Seq<char>>::empty() =~= res@.map_values(
        |l: Vec<char>| l@,
    ));
    res
}

// ---------------------------------------------------------------------------
// Reading the fields
// ---------------------------------------------------------------------------

/// What reading the frontmatter has found so far.
pub struct FieldsView {
    /// The last top-level `name:` value.
    pub name: Option<Seq<char>>,
    /// The last top-level `description:` value.
    pub description: Option<Seq<char>>,
    /// A top-level `metadata: <value>` line was seen.
    pub metadata_scalar: bool,
    /// The `metadata:` block holds at least one entry.
    pub metadata_block: bool,
    /// The last `internal:` entry of the block says `true`.
    pub internal: bool,
    /// The lines being read are inside the `metadata:` block.
    pub in_metadata: bool,
}

/// Nothing found yet.
pub open spec fn fields_start() -> FieldsView {
    FieldsView {
        name: None,
        description: None,
        metadata_scalar: false,
        metadata_block: false,
        internal: false,
        in_metadata: false,
    }
}

/// `key: value` split at the first `": "`.
pub open spec fn split_colon(t: Seq<char>) -> Option<(Seq<char>, Seq<char>)> {
    match find_first(t, ": "@) {
        Some(i) => Some((t.take(i), t.skip(i + 2))),
        None => None,
    }
}

/// A value without surrounding white space and quotes.
pub open spec fn clean_value(v: Seq<char>) -> Seq<char> {
    trim_char(trim_char(trim(v), '"'), '\'')
}

/// The fields after a top-level entry `k: v`.
pub open spec fn with_top_entry(st: FieldsView, k: Seq<char>, v: Seq<char>) -> FieldsView {
    if k == "name"@ {
        FieldsView { name: Some(clean_value(v)), ..st }
    } else if k == "description"@ {
        FieldsView { description: Some(clean_value(v)), ..st }
    } else if k == "metadata"@ {
        FieldsView { metadata_scalar: true, ..st }
    } else {
        st
    }
}

/// The fields after an entry `k: v` of the metadata block.
pub open spec fn with_meta_entry(st: FieldsView, k: Seq<char>, v: Seq<char>) -> FieldsView {
    if trim(k) == "internal"@ {
        FieldsView { metadata_block: true, internal: clean_value(v) == "true"@, ..st }
    } else {
        FieldsView { metadata_block: true, ..st }
    }
}

/// Whether a line is indented (starts with a space or a tab).
pub open spec fn indented(line: Seq<char>) -> bool {
    line.len() > 0 && (line[0] == ' ' || line[0] == '\t')
}

/// The fields after reading one line: blank lines and comments are
/// skipped, `metadata:` opens the block, an unindented line closes it, and
/// `key: value` lines are entries of the block or of the top level.
pub open spec fn fields_step(st: FieldsView, line: Seq<char>) -> FieldsView {
    let t = trim(line);
    if t.len() == 0 || t[0] == '#' {
        st
    } else if t == "metadata:"@ {
        FieldsView { in_metadata: true, ..st }
    } else {
        let st1 = if st.in_metadata && !indented(line) {
            FieldsView { in_metadata: false, ..st }
        } else {
            st
        };
        match split_colon(t) {
            Some(kv) => if st1.in_metadata {
                with_meta_entry(st1, kv.0, kv.1)
            } else {
                with_top_entry(st1, kv.0, kv.1)
            },
            None => st1,
        }
    }
}

/// The fields after reading all of `lines`.
pub open spec fn fields_of_lines(lines: Seq<Seq<char>>) -> FieldsView
    decreases lines.len(),
{
    if lines.len() == 0 {
        fields_start()
    } else {
        fields_step(fields_of_lines(lines.drop_last()), lines.last())
    }
}

/// The frontmatter fields that matter to OpenGoose.
#[derive(Debug, Clone)]
pub struct SkillFrontmatter {
    pub name: Option<String>,
    pub description: Option<String>,
    /// The metadata block marks the skill as internal.
    pub internal: bool,
}

/// What the frontmatter text `yaml` reads as: its name, description and
/// internal mark, or nothing when `metadata` is a plain value rather than
/// a block of entries.
pub open spec fn frontmatter_fields(yaml: Seq<char>) -> Option<
    (Option<Seq<char>>, Option<Seq<char>>, bool),
> {
    let f = fields_of_lines(lines_of(yaml));
    if f.metadata_scalar && !f.metadata_block {
        None
    } else {
        Some((f.name, f.description, f.metadata_block && f.internal))
    }
}

/// The view of an optional string.
pub open spec fn opt_view(o: Option<String>) -> Option<Seq<char>> {
    match o {
        Some(s) => Some(s@),
        None => None,
    }
}

/// The frontmatter as read so far, with plain values.
struct FieldsScan {
    name: Option<String>,
    description: Option<String>,
    metadata_scalar: bool,
    metadata_block: bool,
    internal: bool,
    in_metadata: bool,
}

impl FieldsScan {
    spec fn view_fields(&self) -> FieldsView {
        FieldsView {
            name: opt_view(self.name),
            description: opt_view(self.description),
            metadata_scalar: self.metadata_scalar,
            metadata_block: self.metadata_block,
            internal: self.internal,
            in_metadata: self.in_metadata,
        }
    }
}

/// Trimming `c` from the ends of `x`, when `x` neither starts nor ends
/// with `c`, leaves it as it is.
proof fn lemma_trim_char_none(x: Seq<char>, c: char)
    requires
        x.len() > 0 ==> x[0] != c && x.last() != c,
    ensures
        trim_char(x, c) == x,
{
}

/// Trimming `c` from `c x c`, when `x` holds no `c`, gives `x`.
proof fn lemma_trim_char_wrapped(x: Seq<char>, c: char)
    requires
        forall|i: int| 0 <= i < x.len() ==> x[i] != c,
    ensures
        trim_char(seq![c] + x + seq![c], c) == x,
{
    let v = seq![c] + x + seq![c];
    let w = x + seq![c];
    assert(v.drop_first() =~= w);
    assert(w.drop_last() =~= x);
    assert(v[0] == c);
    assert(trim_char_start(v, c) == trim_char_start(w, c));
    if x.len() > 0 {
        assert(w[0] == x[0]);
        assert(trim_char_start(w, c) == w);
        assert(w.last() == c);
        assert(trim_char_end(w, c) == trim_char_end(x, c));
        assert(x.last() == x[x.len() - 1]);
        assert(trim_char_end(x, c) == x);
    } else {
        assert(w.drop_first() =~= Seq::<char>::empty());
        assert(trim_char_start(w.drop_first(), c) == Seq::<char>::empty());
        assert(trim_char_start(w, c) == Seq::<char>::empty());
        assert(trim_char_end(Seq::<char>::empty(), c) == Seq::<char>::empty());
    }
}

/// A value written in quotes reads as the text between them: for a value
/// `'x'` or `"x"` with `x` free of quotes, the field is exactly `x`.
pub proof fn law_quoted_value_reads_inner(x: Seq<char>)
    requires
        forall|i: int| 0 <= i < x.len() ==> x[i] != '\'' && x[i] != '"',
    ensures
        clean_value(seq!['\''] + x + seq!['\'']) == x,
        clean_value(seq!['"'] + x + seq!['"']) == x,
{
    let s1 = seq!['\''] + x + seq!['\''];
    let s2 = seq!['"'] + x + seq!['"'];
    assert(!is_ws('\'') && !is_ws('"'));
    assert(s1[0] == '\'' && s1.last() == '\'');
    assert(s2[0] == '"' && s2.last() == '"');
    assert(trim_start(s1) == s1);
    assert(trim_end(s1) == s1);
    assert(trim_start(s2) == s2);
    assert(trim_end(s2) == s2);
    lemma_trim_char_none(s1, '"');
    lemma_trim_char_wrapped(x, '\'');
    lemma_trim_char_wrapped(x, '"');
    lemma_trim_char_none(x, '\'');
}

fn clean_value_exec(v: &[char]) -> (res: Vec<char>)
    ensures
        res@ == clean_value(v@),
{
    let a = trim_vec(v);
    let b = trim_char_vec(&a, '"');
    trim_char_vec(&b, '\'')
}

fn split_colon_exec(t: &[char]) -> (res: Option<(Vec<char>, Vec<char>)>)
    ensures
        match res {
            Some(kv) => split_colon(t@) == Some((kv.0@, kv.1@)),
            None => split_colon(t@) is None,
        },
{
    let pat = chars_of(": ");
    assert(": "@.len() == 2) by {
        reveal_strlit(": ");
    }
    match find(t, &pat) {
        Some(i) => {
            assert(pat@.len() == 2);
            assert(i + pat@.len() <= t@.len());
            let n = t.len();
            assert(i + 2 <= n);
            let k = slice_range(t, 0, i);
            let v = slice_range(t, i + 2, t.len());
            assert(k@ =~= t@.take(i as int));
            assert(v@ =~= t@.skip(i + 2));
            Some((k, v))
        },
        None => None,
    }
}

fn scan_step(st: &mut FieldsScan, line: &[char])
    ensures
        final(st).view_fields() == fields_step(old(st).view_fields(), line@),
{
    let t = trim_vec(line);
    if t.len() == 0 || t[0] == '#' {
        return;
    }
    if chars_eq_str(&t, "metadata:") {
        st.in_metadata = true;
        return;
    }
    if st.in_metadata && !(line.len() > 0 && (line[0] == ' ' || line[0] == '\t')) {
        st.in_metadata = false;
    }
    match split_colon_exec(&t) {
        Some(kv) => {
            let (k, v) = kv;
            let value = clean_value_exec(&v);
            if st.in_metadata {
                let kt = trim_vec(&k);
                st.metadata_block = true;
                if chars_eq_str(&kt, "internal") {
                    st.internal = chars_eq_str(&value, "true");
                }
            } else if chars_eq_str(&k, "name") {
                st.name = Some(string_of(&value));
            } else if chars_eq_str(&k, "description") {
                st.description = Some(string_of(&value));
            } else if chars_eq_str(&k, "metadata") {
                st.metadata_scalar = true;
            }
        },
        None => {},
    }
}

fn scan_fields(yaml: &str) -> (st: FieldsScan)
    ensures
        st.view_fields() == fields_of_lines(lines_of(yaml@)),
{
    let cs = chars_of(yaml);
    let lines = split_lines(&cs);
    let ghost ls = lines@.map_values(|l: Vec<char>| l@);
    let mut st = FieldsScan {
        name: None,
        description: None,
        metadata_scalar: false,
        metadata_block: false,
        internal: false,
        in_metadata: false,
    };
    let mut i: usize = 0;
    while i < lines.len()
        invariant
            i <= lines@.len(),
            ls == lines@.map_values(|l: Vec<char>| l@),
            st.view_fields() == fields_of_lines(ls.take(i as int)),
        decreases lines@.len() - i,
    {
        scan_step(&mut st, &lines[i]);
        proof {
            assert(ls.take(i + 1).drop_last() =~= ls.take(i as int));
            assert(ls.take(i + 1).last() == lines@[i as int]@);
        }
        i = i + 1;
    }
    assert(ls.take(lines@.len() as int) =~= ls);
    st
}

/// Reads the fields of a frontmatter text.
pub fn parse_frontmatter(yaml: &str) -> (res: Option<SkillFrontmatter>)
    ensures
        match res {
            Some(f) => frontmatter_fields(yaml@) == Some(
                (opt_view(f.name), opt_view(f.description), f.internal),
            ),
            None => frontmatter_fields(yaml@) is None,
        },
{
    let st = scan_fields(yaml);
    if st.metadata_scalar && !st.metadata_block {
        None
    } else {
        Some(
            SkillFrontmatter {
                name: st.name,
                description: st.description,
                internal: st.metadata_block && st.internal,
            },
        )
    }
}

/// The top-level `name` and `description` values of a frontmatter text,
/// whatever its metadata holds.
pub fn name_and_description(yaml: &str) -> (res: (Option<String>, Option<String>))
    ensures
        opt_view(res.0) == fields_of_lines(lines_of(yaml@)).name,
        opt_view(res.1) == fields_of_lines(lines_of(yaml@)).description,
{
    let st = scan_fields(yaml);
    (st.name, st.description)
}

} // verus!
