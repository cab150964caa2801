//! The text format of env files: how content is split into lines, how each
//! line is read, and how entries are written back.
use vstd::prelude::*;

use crate::env_file::comment::comment_from_line_spec;
use crate::env_file::entry::EntryModel;
use crate::env_file::error::ReaderErrorModel;
use crate::env_file::var::var_from_line_spec;
use crate::env_file::var::VarModel;
use crate::text::{has_char, has_ws, is_ws, last_index_of, trim, trim_end, trim_start, trim_start_char};

verus! {

/// Number of characters of `s` before its first line feed (or `s.len()`).
pub open spec fn line_len(s: Seq<char>) -> nat
    decreases s.len(),
{
    if s.len() == 0 || s[0] == '\n' {
        0
    } else {
        1 + line_len(s.skip(1))
    }
}

pub proof fn lemma_line_len_bound(s: Seq<char>)
    ensures
        line_len(s) <= s.len(),
        line_len(s) < s.len() ==> s[line_len(s) as int] == '\n',
        forall|k: int| 0 <= k < line_len(s) ==> s[k] != '\n',
    decreases s.len(),
{
    if s.len() > 0 && s[0] != '\n' {
        lemma_line_len_bound(s.skip(1));
        assert forall|k: int| 0 <= k < line_len(s) implies s[k] != '\n' by {
            if k > 0 {
                assert(s[k] == s.skip(1)[k - 1]);
            }
        }
    }
}

/// `line_len(s)` is the first `j` at which a line feed (or the end) stands.
pub proof fn lemma_line_len_at(s: Seq<char>, j: int)
    requires
        0 <= j <= s.len(),
        forall|k: int| 0 <= k < j ==> s[k] != '\n',
        j == s.len() || s[j] == '\n',
    ensures
        line_len(s) == j,
    decreases j,
{
    if j > 0 {
        assert forall|k: int| 0 <= k < j - 1 implies s.skip(1)[k] != '\n' by {
            assert(s.skip(1)[k] == s[k + 1]);
        }
        lemma_line_len_at(s.skip(1), j - 1);
    }
}

/// The lines of `s`, as `BufRead::lines` gives them (a final line feed ends
/// the last line; it does not open an empty one).
pub open spec fn split_lines(s: Seq<char>) -> Seq<Seq<char>>
    decreases s.len(),
{
    if s.len() == 0 {
        seq![]
    } else {
        let j = line_len(s);
        if j < s.len() {
            proof {
                lemma_line_len_bound(s);
            }
            seq![s.take(j as int)] + split_lines(s.skip(j as int + 1))
        } else {
            seq![s]
        }
    }
}

/// How one line is read: leading byte order marks and surrounding white
/// space are dropped; then the line is empty, a comment or an assignment.
pub open spec fn parse_line(line: Seq<char>) -> Result<EntryModel, ReaderErrorModel> {
    let t = trim_end(trim_start(trim_start_char(line, '\u{feff}')));
    if t.len() == 0 {
        Ok(EntryModel::Empty)
    } else {
        match comment_from_line_spec(t) {
            Some(c) => Ok(EntryModel::Comment(c)),
            None => match var_from_line_spec(t) {
                Ok(v) => Ok(EntryModel::Var(v)),
                Err(e) => Err(e),
            },
        }
    }
}

/// The entries read from `lines`, up to the first line that cannot be read,
/// and the error of that line if there is one.
pub open spec fn parse_lines(lines: Seq<Seq<char>>) -> (Seq<EntryModel>, Option<ReaderErrorModel>)
    decreases lines.len(),
{
    if lines.len() == 0 {
        (seq![], None)
    } else {
        match parse_line(lines[0]) {
            Ok(e) => {
                let rest = parse_lines(lines.skip(1));
                (seq![e] + rest.0, rest.1)
            },
            Err(err) => (seq![], Some(err)),
        }
    }
}

/// The entries read from the text `s`, and the error that stopped the reading.
pub open spec fn parse_content(s: Seq<char>) -> (Seq<EntryModel>, Option<ReaderErrorModel>) {
    parse_lines(split_lines(s))
}

/// How one entry is written: `name=value`, `#comment` or nothing, then a line feed.
pub open spec fn render_entry(e: EntryModel) -> Seq<char> {
    match e {
        EntryModel::Var(v) => v.name + seq!['='] + v.value + seq!['\n'],
        EntryModel::Comment(c) => seq!['#'] + c + seq!['\n'],
        EntryModel::Empty => seq!['\n'],
    }
}

/// How a list of entries is written: each entry in order.
pub open spec fn render(es: Seq<EntryModel>) -> Seq<char>
    decreases es.len(),
{
    if es.len() == 0 {
        seq![]
    } else {
        render(es.drop_last()) + render_entry(es.last())
    }
}

/// The line that holds an entry once written (without its line feed).
pub open spec fn entry_line(e: EntryModel) -> Seq<char> {
    match e {
        EntryModel::Var(v) => v.name + seq!['='] + v.value,
        EntryModel::Comment(c) => seq!['#'] + c,
        EntryModel::Empty => seq![],
    }
}

/// An entry that reads back as itself once written: a variable whose name
/// holds no white space and begins with neither `#` nor a byte order mark,
/// and whose value holds neither `=` nor a line feed and is not surrounded
/// by white space; a comment on one line that does not end with white space.
pub open spec fn entry_wf(e: EntryModel) -> bool {
    match e {
        EntryModel::Var(v) => {
            &&& !has_ws(v.name)
            &&& v.name.len() > 0 ==> v.name[0] != '#' && v.name[0] != '\u{feff}'
            &&& !has_char(v.value, '=')
            &&& !has_char(v.value, '\n')
            &&& v.value.len() > 0 ==> !is_ws(v.value[0]) && !is_ws(v.value.last())
        },
        EntryModel::Comment(c) => {
            &&& !has_char(c, '\n')
            &&& c.len() > 0 ==> !is_ws(c.last())
        },
        EntryModel::Empty => true,
    }
}

pub proof fn lemma_render_front(es: Seq<EntryModel>)
    requires
        es.len() > 0,
    ensures
        render(es) == render_entry(es[0]) + render(es.skip(1)),
    decreases es.len(),
{
    if es.len() == 1 {
        assert(es.drop_last() =~= seq![]);
        assert(es.skip(1) =~= seq![]);
        assert(render(es) =~= render_entry(es[0]) + render(es.skip(1)));
    } else {
        lemma_render_front(es.drop_last());
        assert(es.drop_last().skip(1) =~= es.skip(1).drop_last());
        assert(es.drop_last()[0] == es[0]);
        assert(es.skip(1).last() == es.last());
        assert(render(es) =~= render_entry(es[0]) + render(es.skip(1)));
    }
}

pub proof fn lemma_split_cons(l: Seq<char>, rest: Seq<char>)
    requires
        !has_char(l, '\n'),
    ensures
        split_lines(l + seq!['\n'] + rest) == seq![l] + split_lines(rest),
{
    let s = l + seq!['\n'] + rest;
    assert forall|k: int| 0 <= k < l.len() implies s[k] != '\n' by {
        assert(s[k] == l[k]);
    }
    assert(s[l.len() as int] == '\n');
    lemma_line_len_at(s, l.len() as int);
    assert(s.take(l.len() as int) =~= l);
    assert(s.skip(l.len() as int + 1) =~= rest);
}

pub proof fn lemma_last_index_after(a: Seq<char>, b: Seq<char>)
    requires
        !has_char(b, '='),
    ensures
        last_index_of(a + seq!['='] + b, '=') == a.len(),
    decreases b.len(),
{
    let s = a + seq!['='] + b;
    if b.len() > 0 {
        assert(s.last() == b.last());
        assert(s.drop_last() =~= a + seq!['='] + b.drop_last());
        assert forall|i: int| 0 <= i < b.drop_last().len() implies b.drop_last()[i] != '=' by {
            assert(b.drop_last()[i] == b[i]);
        }
        lemma_last_index_after(a, b.drop_last());
    }
}

pub proof fn lemma_trims_noop(s: Seq<char>)
    requires
        s.len() > 0 ==> !is_ws(s[0]) && !is_ws(s.last()),
    ensures
        trim_start(s) == s,
        trim_end(s) == s,
        trim(s) == s,
{
}

pub proof fn lemma_parse_entry_line(e: EntryModel)
    requires
        entry_wf(e),
    ensures
        parse_line(entry_line(e)) == Ok::<EntryModel, ReaderErrorModel>(e),
        !has_char(entry_line(e), '\n'),
{
    match e {
        EntryModel::Var(v) => {
            let t = v.name + seq!['='] + v.value;
            assert(t.len() > 0);
            if v.name.len() > 0 {
                assert(t[0] == v.name[0]);
                assert(!is_ws(v.name[0]));
            } else {
                assert(t[0] == '=');
            }
            if v.value.len() > 0 {
                assert(t.last() == v.value.last());
            } else {
                assert(t.last() == '=');
            }
            lemma_trims_noop(t);
            assert(trim_start_char(t, '\u{feff}') == t);
            if v.name.len() > 0 {
                assert(!is_ws(v.name.last()));
            }
            lemma_trims_noop(v.name);
            lemma_trims_noop(v.value);
            lemma_last_index_after(v.name, v.value);
            assert(t.take(v.name.len() as int) =~= v.name);
            assert(t.skip(v.name.len() as int + 1) =~= v.value);
            assert(var_from_line_spec(t) == Ok::<VarModel, ReaderErrorModel>(v));
            assert forall|i: int| 0 <= i < t.len() implies t[i] != '\n' by {
                if i < v.name.len() {
                    assert(t[i] == v.name[i]);
                } else if i > v.name.len() {
                    assert(t[i] == v.value[i - v.name.len() - 1]);
                }
            }
        },
        EntryModel::Comment(c) => {
            let t = seq!['#'] + c;
            if c.len() > 0 {
                assert(t.last() == c.last());
            }
            lemma_trims_noop(t);
            assert(trim_start_char(t, '\u{feff}') == t);
            assert(t.skip(1) =~= c);
            assert forall|i: int| 0 <= i < t.len() implies t[i] != '\n' by {
                if i > 0 {
                    assert(t[i] == c[i - 1]);
                }
            }
        },
        EntryModel::Empty => {
            assert(trim_end(trim_start(trim_start_char(seq![], '\u{feff}'))) =~= seq![]);
        },
    }
}

/// Reading what was written gives back the entries: for entries that are
/// each well formed (see [`entry_wf`]), reading the text they are written
/// as yields exactly those entries, without error.
pub proof fn lemma_parse_render(es: Seq<EntryModel>)
    requires
        forall|i: int| 0 <= i < es.len() ==> entry_wf(#[trigger] es[i]),
    ensures
        parse_content(render(es)) == (es, None::<ReaderErrorModel>),
    decreases es.len(),
{
    if es.len() == 0 {
        assert(render(es) =~= seq![]);
        assert(es =~= seq![]);
    } else {
        let rest = es.skip(1);
        assert forall|i: int| 0 <= i < rest.len() implies entry_wf(#[trigger] rest[i]) by {
            assert(rest[i] == es[i + 1]);
        }
        lemma_parse_render(rest);
        lemma_render_front(es);
        lemma_parse_entry_line(es[0]);
        assert(render_entry(es[0]) =~= entry_line(es[0]) + seq!['\n']);
        assert(render(es) =~= entry_line(es[0]) + seq!['\n'] + render(rest));
        lemma_split_cons(entry_line(es[0]), render(rest));
        let lines = split_lines(render(es));
        assert(lines[0] == entry_line(es[0]));
        assert(lines.skip(1) =~= split_lines(render(rest)));
        assert(es =~= seq![es[0]] + rest);
    }
}

/// `trim_start(s)` is what follows some leading white space of `s`, and
/// does not begin with white space.
proof fn lemma_trim_start(s: Seq<char>) -> (m: int)
    ensures
        0 <= m <= s.len(),
        trim_start(s) == s.skip(m),
        trim_start(s).len() > 0 ==> !is_ws(trim_start(s)[0]),
    decreases s.len(),
{
    if s.len() > 0 && is_ws(s[0]) {
        let m1 = lemma_trim_start(s.skip(1));
        assert(s.skip(1).skip(m1) =~= s.skip(m1 + 1));
        m1 + 1
    } else {
        assert(s.skip(0) =~= s);
        0
    }
}

/// `trim_end(s)` is what precedes some trailing white space of `s`, and
/// does not end with white space.
proof fn lemma_trim_end(s: Seq<char>) -> (m: int)
    ensures
        0 <= m <= s.len(),
        trim_end(s) == s.take(m),
        trim_end(s).len() > 0 ==> !is_ws(trim_end(s).last()),
    decreases s.len(),
{
    if s.len() > 0 && is_ws(s.last()) {
        let m1 = lemma_trim_end(s.drop_last());
        assert(s.drop_last().take(m1) =~= s.take(m1));
        m1
    } else {
        assert(s.take(s.len() as int) =~= s);
        s.len() as int
    }
}

/// `trim(s)` is a part of `s` that neither begins nor ends with white space.
proof fn lemma_trim(s: Seq<char>) -> (r: (int, int))
    ensures
        0 <= r.0 <= r.1 <= s.len(),
        trim(s) == s.subrange(r.0, r.1),
        trim(s).len() > 0 ==> !is_ws(trim(s)[0]) && !is_ws(trim(s).last()),
{
    let z = trim_end(s);
    let m = lemma_trim_end(s);
    let j = lemma_trim_start(z);
    assert(z.skip(j) =~= s.subrange(j, m));
    if trim(s).len() > 0 {
        assert(trim(s).last() == z.last());
    }
    (j, m)
}

/// A text without `c` has no part with `c`.
proof fn lemma_no_char_subrange(s: Seq<char>, c: char, lo: int, hi: int)
    requires
        0 <= lo <= hi <= s.len(),
        !has_char(s, c),
    ensures
        !has_char(s.subrange(lo, hi), c),
{
    assert forall|i: int| 0 <= i < hi - lo implies s.subrange(lo, hi)[i] != c by {
        assert(s.subrange(lo, hi)[i] == s[lo + i]);
    }
}

/// No `c` follows the last `c`.
proof fn lemma_last_index_of(s: Seq<char>, c: char)
    ensures
        -1 <= last_index_of(s, c) < s.len(),
        last_index_of(s, c) >= 0 ==> s[last_index_of(s, c)] == c,
        forall|i: int| last_index_of(s, c) < i < s.len() ==> s[i] != c,
    decreases s.len(),
{
    if s.len() > 0 && s.last() != c {
        lemma_last_index_of(s.drop_last(), c);
        assert forall|i: int| last_index_of(s, c) < i < s.len() implies s[i] != c by {
            if i < s.len() - 1 {
                assert(s[i] == s.drop_last()[i]);
            }
        }
    }
}

/// A variable whose name begins with a byte order mark: the only entry that
/// a reading can give and that does not read back as itself once written
/// (the mark is dropped).
pub open spec fn has_bom_name(e: EntryModel) -> bool {
    e matches EntryModel::Var(v) && v.name.len() > 0 && v.name[0] == '\u{feff}'
}

/// An entry read from a line is well formed, unless it is a variable whose
/// name begins with a byte order mark.
proof fn lemma_parse_line_wf(line: Seq<char>)
    requires
        !has_char(line, '\n'),
        parse_line(line) is Ok,
        !has_bom_name(parse_line(line)->Ok_0),
    ensures
        entry_wf(parse_line(line)->Ok_0),
{
    let u = trim_start_char(line, '\u{feff}');
    let a = lemma_trim_start_char(line, '\u{feff}');
    let x = trim_start(u);
    let i = lemma_trim_start(u);
    let t = trim_end(x);
    let m = lemma_trim_end(x);
    assert(t =~= line.subrange(a + i, a + i + m));
    lemma_no_char_subrange(line, '\n', a + i, a + i + m);
    if t.len() > 0 {
        assert(t[0] == x[0]);
        match comment_from_line_spec(t) {
            Some(c) => {
                assert(c =~= t.subrange(1, t.len() as int));
                lemma_no_char_subrange(t, '\n', 1, t.len() as int);
                if c.len() > 0 {
                    assert(c.last() == t.last());
                }
            },
            None => {
                let k = last_index_of(t, '=');
                lemma_last_index_of(t, '=');
                let y = t.take(k);
                let (nlo, nhi) = lemma_trim(y);
                let name = trim(y);
                let w = t.skip(k + 1);
                let (vlo, vhi) = lemma_trim(w);
                let value = trim(w);
                assert(y =~= t.subrange(0, k));
                assert(w =~= t.subrange(k + 1, t.len() as int));
                assert(value =~= t.subrange(k + 1 + vlo, k + 1 + vhi));
                lemma_no_char_subrange(t, '\n', k + 1 + vlo, k + 1 + vhi);
                assert forall|j: int| 0 <= j < value.len() implies value[j] != '=' by {
                    assert(value[j] == t[k + 1 + vlo + j]);
                }
                if name.len() > 0 {
                    let me = lemma_trim_end(y);
                    let ms = lemma_trim_start(trim_end(y));
                    assert(!is_ws(y[0]));
                    assert(trim_end(y).len() > 0);
                    assert(trim_end(y)[0] == y[0]);
                    assert(trim_start(trim_end(y)) == trim_end(y));
                    assert(name[0] == t[0]);
                }
            },
        }
    }
}

/// `trim_start_char(s, c)` is what follows some leading copies of `c`.
proof fn lemma_trim_start_char(s: Seq<char>, c: char) -> (m: int)
    ensures
        0 <= m <= s.len(),
        trim_start_char(s, c) == s.skip(m),
    decreases s.len(),
{
    if s.len() > 0 && s[0] == c {
        let m1 = lemma_trim_start_char(s.skip(1), c);
        assert(s.skip(1).skip(m1) =~= s.skip(m1 + 1));
        m1 + 1
    } else {
        assert(s.skip(0) =~= s);
        0
    }
}

/// The lines of a text hold no line feed.
proof fn lemma_split_lines_no_lf(s: Seq<char>)
    ensures
        forall|i: int|
            0 <= i < split_lines(s).len() ==> !has_char(#[trigger] split_lines(s)[i], '\n'),
    decreases s.len(),
{
    if s.len() > 0 {
        let j = line_len(s);
        lemma_line_len_bound(s);
        assert(!has_char(s.take(j as int), '\n')) by {
            assert forall|k: int| 0 <= k < j implies s.take(j as int)[k] != '\n' by {
                assert(s.take(j as int)[k] == s[k]);
            }
        }
        if j < s.len() {
            lemma_split_lines_no_lf(s.skip(j as int + 1));
            let rest = split_lines(s.skip(j as int + 1));
            assert forall|i: int| 0 <= i < split_lines(s).len() implies !has_char(
                #[trigger] split_lines(s)[i],
                '\n',
            ) by {
                if i > 0 {
                    assert(split_lines(s)[i] == rest[i - 1]);
                }
            }
        } else {
            assert(s.take(j as int) =~= s);
        }
    }
}

/// Entries read from lines without line feeds are well formed, but for
/// variables whose names begin with a byte order mark.
proof fn lemma_parse_lines_wf(lines: Seq<Seq<char>>)
    requires
        forall|i: int| 0 <= i < lines.len() ==> !has_char(#[trigger] lines[i], '\n'),
    ensures
        forall|i: int|
            0 <= i < parse_lines(lines).0.len() && !has_bom_name(parse_lines(lines).0[i])
                ==> entry_wf(#[trigger] parse_lines(lines).0[i]),
    decreases lines.len(),
{
    if lines.len() > 0 {
        let rest = lines.skip(1);
        assert forall|i: int| 0 <= i < rest.len() implies !has_char(#[trigger] rest[i], '\n') by {
            assert(rest[i] == lines[i + 1]);
        }
        lemma_parse_lines_wf(rest);
        if parse_line(lines[0]) is Ok {
            let es = parse_lines(lines).0;
            assert forall|i: int| 0 <= i < es.len() && !has_bom_name(es[i]) implies entry_wf(
                #[trigger] es[i],
            ) by {
                if i == 0 {
                    lemma_parse_line_wf(lines[0]);
                } else {
                    assert(es[i] == parse_lines(rest).0[i - 1]);
                }
            }
        }
    }
}

/// Whatever text is read, each entry read is well formed (it reads back as
/// itself once written), except a variable whose name begins with a byte
/// order mark.
pub proof fn lemma_parsed_entries_wf(s: Seq<char>)
    ensures
        forall|i: int|
            0 <= i < parse_content(s).0.len() && !has_bom_name(parse_content(s).0[i])
                ==> entry_wf(#[trigger] parse_content(s).0[i]),
{
    lemma_split_lines_no_lf(s);
    lemma_parse_lines_wf(split_lines(s));
}

/// Writing what was read and reading it again gives the same entries,
/// without error: reading normalises a text once and for all. This holds
/// whenever no variable read has a name that begins with a byte order mark.
pub proof fn lemma_reparse(s: Seq<char>)
    requires
        forall|i: int|
            0 <= i < parse_content(s).0.len() ==> !has_bom_name(#[trigger] parse_content(s).0[i]),
    ensures
        parse_content(render(parse_content(s).0)) == (parse_content(s).0, None::<ReaderErrorModel>),
{
    lemma_parsed_entries_wf(s);
    lemma_parse_render(parse_content(s).0);
}

/// A line that holds nothing but byte order marks followed by white space
/// (a blank line, `\r` of a CRLF file included) reads as an empty line.
pub proof fn lemma_blank_line_is_empty(line: Seq<char>, k: int)
    requires
        0 <= k <= line.len(),
        forall|j: int| 0 <= j < k ==> line[j] == '\u{feff}',
        forall|j: int| k <= j < line.len() ==> is_ws(#[trigger] line[j]),
    ensures
        parse_line(line) == Ok::<EntryModel, ReaderErrorModel>(EntryModel::Empty),
{
    lemma_trim_start_char_boms(line, k);
    lemma_trim_start_all_ws(line.skip(k));
    assert(trim_end(Seq::<char>::empty()) =~= Seq::<char>::empty());
}

proof fn lemma_trim_start_char_boms(line: Seq<char>, k: int)
    requires
        0 <= k <= line.len(),
        forall|j: int| 0 <= j < k ==> line[j] == '\u{feff}',
        forall|j: int| k <= j < line.len() ==> is_ws(#[trigger] line[j]),
    ensures
        trim_start_char(line, '\u{feff}') == line.skip(k),
    decreases k,
{
    if k > 0 {
        let rest = line.skip(1);
        assert forall|j: int| k - 1 <= j < rest.len() implies is_ws(#[trigger] rest[j]) by {
            assert(rest[j] == line[j + 1]);
        }
        lemma_trim_start_char_boms(rest, k - 1);
        assert(rest.skip(k - 1) =~= line.skip(k));
    } else {
        assert(line.skip(0) =~= line);
        if line.len() > 0 {
            assert(is_ws(line[0]));
        }
    }
}

proof fn lemma_trim_start_all_ws(s: Seq<char>)
    requires
        forall|j: int| 0 <= j < s.len() ==> is_ws(#[trigger] s[j]),
    ensures
        trim_start(s) == Seq::<char>::empty(),
    decreases s.len(),
{
    if s.len() > 0 {
        let rest = s.skip(1);
        assert forall|j: int| 0 <= j < rest.len() implies is_ws(#[trigger] rest[j]) by {
            assert(rest[j] == s[j + 1]);
        }
        lemma_trim_start_all_ws(rest);
    } else {
        assert(s =~= Seq::<char>::empty());
    }
}

} // verus!
