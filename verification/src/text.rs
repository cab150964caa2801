//! Character-level text helpers shared by the parsers and printers.
use vstd::prelude::*;
use vstd::std_specs::iter::IteratorSpec;

verus! {

/// Unicode `White_Space` property, as used by `char::is_whitespace`.
pub open spec fn is_ws(c: char) -> bool {
    ||| ('\u{9}' <= c && c <= '\u{d}')
    ||| c == ' '
    ||| c == '\u{85}'
    ||| c == '\u{a0}'
    ||| c == '\u{1680}'
    ||| ('\u{2000}' <= c && c <= '\u{200a}')
    ||| c == '\u{2028}'
    ||| c == '\u{2029}'
    ||| c == '\u{202f}'
    ||| c == '\u{205f}'
    ||| c == '\u{3000}'
}

/// Executable counterpart of [`is_ws`].
pub(crate) fn is_whitespace(c: char) -> (r: bool)
    ensures
        r == is_ws(c),
{
    ('\u{9}' <= c && c <= '\u{d}') || c == ' ' || c == '\u{85}' || c == '\u{a0}' || c == '\u{1680}'
        || ('\u{2000}' <= c && c <= '\u{200a}') || c == '\u{2028}' || c == '\u{2029}' || c
        == '\u{202f}' || c == '\u{205f}' || c == '\u{3000}'
}

/// Whether some character of `s` is white space.
pub open spec fn has_ws(s: Seq<char>) -> bool {
    exists|i: int| 0 <= i < s.len() && is_ws(#[trigger] s[i])
}

/// Whether `c` occurs in `s`.
pub open spec fn has_char(s: Seq<char>, c: char) -> bool {
    exists|i: int| 0 <= i < s.len() && #[trigger] s[i] == c
}

/// `s` without its leading white space (`str::trim_start`).
pub open spec fn trim_start(s: Seq<char>) -> Seq<char>
    decreases s.len(),
{
    if s.len() > 0 && is_ws(s[0]) {
        trim_start(s.skip(1))
    } else {
        s
    }
}

/// `s` without its trailing white space (`str::trim_end`).
pub open spec fn trim_end(s: Seq<char>) -> Seq<char>
    decreases s.len(),
{
    if s.len() > 0 && is_ws(s.last()) {
        trim_end(s.drop_last())
    } else {
        s
    }
}

/// `s` without the copies of `c` it begins with (`str::trim_start_matches(c)`).
pub open spec fn trim_start_char(s: Seq<char>, c: char) -> Seq<char>
    decreases s.len(),
{
    if s.len() > 0 && s[0] == c {
        trim_start_char(s.skip(1), c)
    } else {
        s
    }
}

/// `s` trimmed at its end, then at its start.
pub open spec fn trim(s: Seq<char>) -> Seq<char> {
    trim_start(trim_end(s))
}

/// Index of the last occurrence of `c` in `s`, or `-1`.
pub open spec fn last_index_of(s: Seq<char>, c: char) -> int
    decreases s.len(),
{
    if s.len() == 0 {
        -1
    } else if s.last() == c {
        s.len() - 1
    } else {
        last_index_of(s.drop_last(), c)
    }
}

/// The characters of `s`, in order.
pub(crate) fn str_to_chars(s: &str) -> (v: Vec<char>)
    ensures
        v@ == s@,
{
    broadcast use vstd::string::group_string_axioms;

    let mut v: Vec<char> = Vec::new();
    for c in it: s.chars()
        invariant
            v@ == it.seq().take(it.index() as int),
    {
        v.push(c);
    }
    assert(v@ =~= s@);
    v
}

/// Appends `c` to `s` (`String::push`).
#[verifier::external_body]
pub(crate) fn push_char(s: &mut String, c: char)
    ensures
        final(s)@ == old(s)@.push(c),
{
    s.push(c);
}

/// The string made of `v[lo..hi]`.
pub(crate) fn string_from_range(v: &Vec<char>, lo: usize, hi: usize) -> (s: String)
    requires
        lo <= hi <= v@.len(),
    ensures
        s@ == v@.subrange(lo as int, hi as int),
{
    let mut s = String::new();
    let mut i = lo;
    while i < hi
        invariant
            lo <= i <= hi <= v@.len(),
            s@ == v@.subrange(lo as int, i as int),
        decreases hi - i,
    {
        push_char(&mut s, v[i]);
        assert(s@ =~= v@.subrange(lo as int, i + 1));
        i = i + 1;
    }
    s
}

/// The string made of all the characters of `v`.
pub(crate) fn string_from_chars(v: &Vec<char>) -> (s: String)
    ensures
        s@ == v@,
{
    let s = string_from_range(v, 0, v.len());
    assert(v@.subrange(0, v@.len() as int) =~= v@);
    s
}

/// Appends all the characters of `s` to `v`.
pub(crate) fn push_str(v: &mut Vec<char>, s: &str)
    ensures
        final(v)@ == old(v)@ + s@,
{
    let mut cs = str_to_chars(s);
    v.append(&mut cs);
}

/// The start of the range `v[lo..hi]` once its leading white space is skipped.
pub(crate) fn trim_start_range(v: &Vec<char>, lo: usize, hi: usize) -> (r: usize)
    requires
        lo <= hi <= v@.len(),
    ensures
        lo <= r <= hi,
        v@.subrange(r as int, hi as int) == trim_start(v@.subrange(lo as int, hi as int)),
{
    let mut i = lo;
    while i < hi && is_whitespace(v[i])
        invariant
            lo <= i <= hi <= v@.len(),
            trim_start(v@.subrange(i as int, hi as int)) == trim_start(
                v@.subrange(lo as int, hi as int),
            ),
        decreases hi - i,
    {
        assert(v@.subrange(i as int, hi as int).skip(1) =~= v@.subrange(i + 1, hi as int));
        i = i + 1;
    }
    i
}

/// The end of the range `v[lo..hi]` once its trailing white space is dropped.
pub(crate) fn trim_end_range(v: &Vec<char>, lo: usize, hi: usize) -> (r: usize)
    requires
        lo <= hi <= v@.len(),
    ensures
        lo <= r <= hi,
        v@.subrange(lo as int, r as int) == trim_end(v@.subrange(lo as int, hi as int)),
{
    let mut j = hi;
    while j > lo && is_whitespace(v[j - 1])
        invariant
            lo <= j <= hi <= v@.len(),
            trim_end(v@.subrange(lo as int, j as int)) == trim_end(
                v@.subrange(lo as int, hi as int),
            ),
        decreases j - lo,
    {
        assert(v@.subrange(lo as int, j as int).drop_last() =~= v@.subrange(lo as int, j - 1));
        j = j - 1;
    }
    j
}

/// The start of the range `v[lo..hi]` once the copies of `c` it begins with are skipped.
pub(crate) fn trim_start_char_range(v: &Vec<char>, lo: usize, hi: usize, c: char) -> (r: usize)
    requires
        lo <= hi <= v@.len(),
    ensures
        lo <= r <= hi,
        v@.subrange(r as int, hi as int) == trim_start_char(v@.subrange(lo as int, hi as int), c),
{
    let mut i = lo;
    while i < hi && v[i] == c
        invariant
            lo <= i <= hi <= v@.len(),
            trim_start_char(v@.subrange(i as int, hi as int), c) == trim_start_char(
                v@.subrange(lo as int, hi as int),
                c,
            ),
        decreases hi - i,
    {
        assert(v@.subrange(i as int, hi as int).skip(1) =~= v@.subrange(i + 1, hi as int));
        i = i + 1;
    }
    i
}

/// Whether some character of `v[lo..hi]` is white space.
pub(crate) fn range_has_ws(v: &Vec<char>, lo: usize, hi: usize) -> (r: bool)
    requires
        lo <= hi <= v@.len(),
    ensures
        r == has_ws(v@.subrange(lo as int, hi as int)),
{
    let mut i = lo;
    while i < hi
        invariant
            lo <= i <= hi <= v@.len(),
            forall|k: int| lo <= k < i ==> !is_ws(v@[k]),
        decreases hi - i,
    {
        if is_whitespace(v[i]) {
            assert(is_ws(v@.subrange(lo as int, hi as int)[i - lo]));
            return true;
        }
        i = i + 1;
    }
    assert forall|k: int| 0 <= k < hi - lo implies !is_ws(
        #[trigger] v@.subrange(lo as int, hi as int)[k],
    ) by {
        assert(v@.subrange(lo as int, hi as int)[k] == v@[lo + k]);
    }
    false
}

/// Index (in `v`) of the last `c` of `v[lo..hi]`, if any.
pub(crate) fn last_index_in_range(v: &Vec<char>, lo: usize, hi: usize, c: char) -> (r: Option<usize>)
    requires
        lo <= hi <= v@.len(),
    ensures
        last_index_of(v@.subrange(lo as int, hi as int), c) < 0 <==> r is None,
        r matches Some(k) ==> lo <= k < hi && last_index_of(v@.subrange(lo as int, hi as int), c)
            == k - lo,
{
    let mut j = hi;
    while j > lo
        invariant
            lo <= j <= hi <= v@.len(),
            last_index_of(v@.subrange(lo as int, j as int), c) == last_index_of(
                v@.subrange(lo as int, hi as int),
                c,
            ),
        decreases j - lo,
    {
        if v[j - 1] == c {
            return Some(j - 1);
        }
        assert(v@.subrange(lo as int, j as int).drop_last() =~= v@.subrange(lo as int, j - 1));
        j = j - 1;
    }
    None
}

/// `s` with each occurrence of `from` replaced by `to`, scanning from the
/// left and not overlapping (`str::replace`, for a non-empty `from`).
pub open spec fn replace_all(s: Seq<char>, from: Seq<char>, to: Seq<char>) -> Seq<char>
    decreases s.len(),
{
    if from.len() == 0 || s.len() < from.len() {
        s
    } else if s.take(from.len() as int) == from {
        to + replace_all(s.skip(from.len() as int), from, to)
    } else {
        seq![s[0]] + replace_all(s.skip(1), from, to)
    }
}

/// Whether `v[pos..]` begins with `p`.
pub(crate) fn starts_with_at(v: &Vec<char>, pos: usize, p: &Vec<char>) -> (r: bool)
    requires
        pos <= v@.len(),
    ensures
        r == (v@.len() - pos >= p@.len() && v@.skip(pos as int).take(p@.len() as int) == p@),
{
    if v.len() - pos < p.len() {
        return false;
    }
    let mut i: usize = 0;
    while i < p.len()
        invariant
            pos <= v@.len(),
            pos + p@.len() <= v@.len() <= usize::MAX,
            i <= p@.len(),
            forall|k: int| 0 <= k < i ==> v@[pos + k] == p@[k],
        decreases p@.len() - i,
    {
        if v[pos + i] != p[i] {
            assert(v@.skip(pos as int).take(p@.len() as int)[i as int] != p@[i as int]);
            return false;
        }
        i = i + 1;
    }
    assert(v@.skip(pos as int).take(p@.len() as int) =~= p@);
    true
}

/// `s` with each occurrence of `from` replaced by `to` (`str::replace`).
pub(crate) fn replace(s: &str, from: &str, to: &str) -> (r: String)
    requires
        from@.len() > 0,
    ensures
        r@ == replace_all(s@, from@, to@),
{
    let v = str_to_chars(s);
    let f = str_to_chars(from);
    let t = str_to_chars(to);
    let mut out: Vec<char> = Vec::new();
    let mut pos: usize = 0;
    assert(v@.skip(0) =~= v@);
    while pos < v.len()
        invariant
            pos <= v@.len(),
            f@ == from@,
            f@.len() > 0,
            t@ == to@,
            out@ + replace_all(v@.skip(pos as int), f@, t@) == replace_all(v@, f@, t@),
        decreases v@.len() - pos,
    {
        let ghost rest = v@.skip(pos as int);
        if starts_with_at(&v, pos, &f) {
            let mut i: usize = 0;
            let ghost before = out@;
            while i < t.len()
                invariant
                    i <= t@.len(),
                    out@ == before + t@.take(i as int),
                decreases t@.len() - i,
            {
                out.push(t[i]);
                assert(out@ =~= before + t@.take(i + 1));
                i = i + 1;
            }
            assert(t@.take(t@.len() as int) =~= t@);
            assert(rest.skip(f@.len() as int) =~= v@.skip(pos + f@.len()));
            assert(out@ + replace_all(v@.skip(pos + f@.len()), f@, t@) =~= before + replace_all(
                rest,
                f@,
                t@,
            ));
            pos = pos + f.len();
        } else {
            let ghost before = out@;
            out.push(v[pos]);
            proof {
            if rest.len() >= f@.len() {
                assert(rest.skip(1) =~= v@.skip(pos + 1));
                assert(out@ + replace_all(v@.skip(pos + 1), f@, t@) =~= before + replace_all(
                    rest,
                    f@,
                    t@,
                ));
            } else {
                assert(replace_all(rest, f@, t@) == rest);
                assert(rest.skip(1).len() < f@.len());
                assert(replace_all(rest.skip(1), f@, t@) == rest.skip(1));
                assert(rest.skip(1) =~= v@.skip(pos + 1));
                assert(out@ + replace_all(v@.skip(pos + 1), f@, t@) =~= before + replace_all(
                    rest,
                    f@,
                    t@,
                ));
            }
            }
            pos = pos + 1;
        }
    }
    assert(v@.skip(pos as int) =~= seq![]);
    assert(out@ =~= replace_all(v@, f@, t@));
    string_from_chars(&out)
}

} // verus!
