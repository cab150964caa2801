use vstd::prelude::*;

use crate::env_file::comment::Comment;
use crate::env_file::var::{Var, VarModel};

verus! {

/// One line of an env file.
#[derive(Debug)]
pub enum Entry {
    Var(Var),
    Comment(Comment),
    Empty,
}

/// Mathematical model of an [`Entry`].
pub enum EntryModel {
    Var(VarModel),
    Comment(Seq<char>),
    Empty,
}

impl View for Entry {
    type V = EntryModel;

    open spec fn view(&self) -> EntryModel {
        match self {
            Entry::Var(v) => EntryModel::Var(v@),
            Entry::Comment(c) => EntryModel::Comment(c@),
            Entry::Empty => EntryModel::Empty,
        }
    }
}

impl Clone for Entry {
    fn clone(&self) -> (r: Self)
        ensures
            r@ == self@,
    {
        match self {
            Entry::Var(v) => Entry::Var(v.clone()),
            Entry::Comment(c) => Entry::Comment(c.clone()),
            Entry::Empty => Entry::Empty,
        }
    }
}

/// Two entries stand for the same line of an env file: two variables of
/// the same name (whatever their values), two equal comments, or two empty
/// lines.
pub open spec fn same_entry(a: EntryModel, b: EntryModel) -> bool {
    match (a, b) {
        (EntryModel::Var(x), EntryModel::Var(y)) => x.name == y.name,
        (EntryModel::Comment(x), EntryModel::Comment(y)) => x == y,
        (EntryModel::Empty, EntryModel::Empty) => true,
        _ => false,
    }
}

impl Entry {
    /// Whether the two entries are the very same: same kind, same texts.
    pub fn equals(&self, other: &Entry) -> (r: bool)
        ensures
            r == (self@ == other@),
    {
        match self {
            Entry::Var(a) => match other {
                Entry::Var(b) => {
                    let same_name = a.name().eq(b.name());
                    let same_value = a.value().eq(b.value());
                    proof {
                        if same_name && same_value {
                            assert(a@ =~= b@);
                        }
                    }
                    same_name && same_value
                },
                _ => false,
            },
            Entry::Comment(a) => match other {
                Entry::Comment(b) => a.value().eq(b.value()),
                _ => false,
            },
            Entry::Empty => match other {
                Entry::Empty => true,
                _ => false,
            },
        }
    }

    /// Whether the two entries stand for the same line: variables are
    /// compared by name only.
    pub fn same(&self, other: &Entry) -> (r: bool)
        ensures
            r == same_entry(self@, other@),
    {
        match self {
            Entry::Var(a) => match other {
                Entry::Var(b) => a.name().eq(b.name()),
                _ => false,
            },
            Entry::Comment(a) => match other {
                Entry::Comment(b) => a.value().eq(b.value()),
                _ => false,
            },
            Entry::Empty => match other {
                Entry::Empty => true,
                _ => false,
            },
        }
    }
}

} // verus!
