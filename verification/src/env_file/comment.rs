use vstd::prelude::*;

use crate::text::{str_to_chars, string_from_range};

verus! {

/// A `#...` line of an env file; the text after the `#`.
#[derive(Debug)]
pub struct Comment {
    value: String,
}

impl View for Comment {
    type V = Seq<char>;

    closed spec fn view(&self) -> Seq<char> {
        self.value@
    }
}

impl Clone for Comment {
    fn clone(&self) -> (r: Self)
        ensures
            r@ == self@,
    {
        Comment { value: self.value.clone() }
    }
}

/// What [`Comment::from_line`] gives for `line`: the text after a leading `#`.
pub open spec fn comment_from_line_spec(line: Seq<char>) -> Option<Seq<char>> {
    if line.len() > 0 && line[0] == '#' {
        Some(line.skip(1))
    } else {
        None
    }
}

impl Comment {
    /// A comment of the given text.
    pub fn new(value: &str) -> (r: Self)
        ensures
            r@ == value@,
    {
        Comment { value: value.to_owned() }
    }

    /// Reads `line` as a comment when it begins with `#`.
    pub fn from_line(line: &String) -> (r: Option<Self>)
        ensures
            match (r, comment_from_line_spec(line@)) {
                (Some(c), Some(m)) => c@ == m,
                (None, None) => true,
                _ => false,
            },
    {
        let v = str_to_chars(line.as_str());
        if v.len() > 0 && v[0] == '#' {
            let value = string_from_range(&v, 1, v.len());
            assert(v@.subrange(1, v@.len() as int) =~= line@.skip(1));
            Some(Comment { value })
        } else {
            None
        }
    }

    /// The text of the comment.
    pub fn value(&self) -> (r: &String)
        ensures
            r@ == self@,
    {
        &self.value
    }
}

} // verus!
