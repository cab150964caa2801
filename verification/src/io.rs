//! Reading a text line by line until a predicate holds.
use vstd::prelude::*;

use crate::d4d_error;
use crate::d4d_error::D4dError;
use crate::text::{push_char, str_to_chars};

verus! {

/// `k` is the end of a line of `data`: the position just after a `\n`, or
/// the end of a text whose last line has no `\n`.
pub open spec fn is_line_end(data: Seq<char>, k: int) -> bool {
    1 <= k <= data.len() && (data[k - 1] == '\n' || k == data.len())
}

/// `data[s..k]` is a line of `data` as `BufRead::read_line` gives it: it
/// begins the text or follows a `\n`, and it runs up to and including the
/// next `\n`, or to the end of the text.
pub open spec fn is_line(data: Seq<char>, s: int, k: int) -> bool {
    &&& 0 <= s < k
    &&& is_line_end(data, k)
    &&& (s == 0 || data[s - 1] == '\n')
    &&& forall|j: int| s <= j < k - 1 ==> data[j] != '\n'
}

/// `f` answered `true` about one of the lines of `data`.
pub open spec fn some_line_accepted<F: Fn(&str) -> bool>(f: F, data: Seq<char>) -> bool {
    exists|s: int, k: int, p: &str|
        #![trigger is_line(data, s, k), f.ensures((p,), true)]
        is_line(data, s, k) && p@ == data.subrange(s, k) && f.ensures((p,), true)
}

/// `f` answered `false` about each line of `data`.
pub open spec fn all_lines_refused<F: Fn(&str) -> bool>(f: F, data: Seq<char>) -> bool {
    forall|s: int, k: int|
        #[trigger] is_line(data, s, k) ==> exists|p: &str|
            p@ == data.subrange(s, k) && #[trigger] f.ensures((p,), false)
}

/// The message of the error when no line satisfies the predicate.
pub const NO_MATCH_MESSAGE: &'static str = "fail to match";

/// Searches `data` for a line that satisfies the predicate `f`: the lines
/// (each with its `\n`) are submitted in order until `f` answers `true`.
/// The whole text is returned when a line satisfied `f`; otherwise the error
/// says that nothing matched.
pub fn read_to_string_finds<F: Fn(&str) -> bool>(data: &str, f: F) -> (r: Result<String, D4dError>)
    requires
        forall|p: &str| f.requires((p,)),
    ensures
        match r {
            Ok(s) => s@ == data@ && some_line_accepted(f, data@),
            Err(e) => e.detail@ == NO_MATCH_MESSAGE@ && all_lines_refused(f, data@),
        },
{
    let chars = str_to_chars(data);
    let mut line = String::new();
    let mut start: usize = 0;
    let mut matched = false;
    let mut i: usize = 0;
    while i < chars.len()
        invariant
            start <= i <= chars@.len(),
            chars@ == data@,
            line@ == data@.subrange(start as int, i as int),
            start == 0 || start == chars@.len() || data@[start - 1] == '\n',
            forall|j: int| start <= j < i ==> data@[j] != '\n',
            forall|p: &str| f.requires((p,)),
            matched ==> some_line_accepted(f, data@),
            !matched ==> forall|s: int, k: int|
                k <= i && #[trigger] is_line(data@, s, k) ==> exists|p: &str|
                    p@ == data@.subrange(s, k) && #[trigger] f.ensures((p,), false),
        decreases chars@.len() - i,
    {
        let c = chars[i];
        push_char(&mut line, c);
        i = i + 1;
        assert(line@ =~= data@.subrange(start as int, i as int));
        if c == '\n' || i == chars.len() {
            assert(is_line(data@, start as int, i as int));
            if !matched {
                let text = line.as_str();
                let answer = f(text);
                proof {
                    assert(text@ == data@.subrange(start as int, i as int));
                    if answer {
                        assert(some_line_accepted(f, data@));
                    } else {
                        assert forall|s: int, k: int|
                            k <= i && #[trigger] is_line(data@, s, k) implies exists|p: &str|
                                p@ == data@.subrange(s, k) && #[trigger] f.ensures((p,), false) by {
                            if k == i {
                                if s < start {
                                    assert(data@[start - 1] != '\n');
                                }
                                if s > start {
                                    assert(data@[s - 1] != '\n');
                                }
                                assert(s == start);
                                assert(f.ensures((text,), false));
                            } else {
                                assert(k < i);
                            }
                        }
                    }
                }
                matched = answer;
            }
            line = String::new();
            start = i;
            assert(line@ =~= data@.subrange(start as int, i as int));
        }
    }
    if matched {
        Ok(data.to_owned())
    } else {
        Err(d4d_error::new(NO_MATCH_MESSAGE))
    }
}

} // verus!
