//! Env files: an ordered list of variables, comments and empty lines.
use vstd::prelude::*;

pub mod comment;
pub mod entry;
pub mod diff;
pub mod error;
pub mod format;
pub mod iter;
pub mod recent;
pub mod sync;
pub mod var;

pub use comment::Comment;
pub use entry::{Entry, EntryModel};
pub use diff::EnvDiffController;
pub use iter::EnvIterator;
pub use recent::ModificationTime;
pub use sync::sync;
pub use error::{EnvError, EnvErrorModel, EnvReaderError, ReaderErrorModel};
pub use var::{Var, VarModel};

use crate::env_file::format::{
    lemma_line_len_at, parse_content, parse_line, parse_lines, render, render_entry, split_lines,
};
use crate::paths::{file_name_of, join_of, path_file_name, path_join};
use crate::text::{
    push_str, str_to_chars, string_from_chars, string_from_range, trim_end_range,
    trim_start_char, trim_start_char_range, trim_start_range,
};

verus! {

/// Mathematical model of an [`Env`]: the path of its file and its entries.
pub struct EnvModel {
    pub file: Seq<char>,
    pub entries: Seq<EntryModel>,
}

/// The models of a list of entries.
pub open spec fn entries_model(es: Seq<Entry>) -> Seq<EntryModel> {
    es.map_values(|e: Entry| e@)
}

/// An env file: its path and its entries, in order.
#[derive(Debug)]
pub struct Env {
    file: String,
    entries: Vec<Entry>,
}

impl View for Env {
    type V = EnvModel;

    closed spec fn view(&self) -> EnvModel {
        EnvModel { file: self.file@, entries: entries_model(self.entries@) }
    }
}

/// The first variable named `name` among `es`.
pub open spec fn find_var(es: Seq<EntryModel>, name: Seq<char>) -> Option<VarModel>
    decreases es.len(),
{
    if es.len() == 0 {
        None
    } else {
        match es[0] {
            EntryModel::Var(v) => if v.name == name {
                Some(v)
            } else {
                find_var(es.skip(1), name)
            },
            _ => find_var(es.skip(1), name),
        }
    }
}

/// The name of an env whose file name is `file_name`: the file name must
/// begin with `.`, which is removed (all leading dots are).
pub open spec fn env_name_spec(file: Seq<char>) -> Result<Seq<char>, EnvErrorModel> {
    match file_name_of(file) {
        None => Err(EnvErrorModel::EnvFileHasNoFileName(file)),
        Some(f) => if f.len() == 0 {
            Err(EnvErrorModel::EnvFileNameIsEmpty(file))
        } else if f[0] != '.' {
            Err(EnvErrorModel::EnvFileNameIncorrect(file))
        } else {
            Ok(trim_start_char(f, '.'))
        },
    }
}

/// A copy of `v`, entry by entry.
pub(crate) fn clone_entries(v: &Vec<Entry>) -> (r: Vec<Entry>)
    ensures
        entries_model(r@) == entries_model(v@),
{
    let mut r: Vec<Entry> = Vec::new();
    let mut i: usize = 0;
    while i < v.len()
        invariant
            i <= v@.len(),
            entries_model(r@) == entries_model(v@.take(i as int)),
        decreases v@.len() - i,
    {
        let ghost old_r = r@;
        let e = v[i].clone();
        r.push(e);
        assert(entries_model(r@) =~= entries_model(old_r).push(v@[i as int]@));
        assert(entries_model(v@.take(i + 1)) =~= entries_model(v@.take(i as int)).push(
            v@[i as int]@,
        ));
        i = i + 1;
    }
    assert(v@.take(v@.len() as int) =~= v@);
    r
}

impl Clone for Env {
    fn clone(&self) -> (r: Self)
        ensures
            r@ == self@,
    {
        Env { file: self.file.clone(), entries: clone_entries(&self.entries) }
    }
}

impl Env {
    /// An env of the file `file`, without entries.
    pub fn new(file: String) -> (r: Self)
        ensures
            r@ == (EnvModel { file: file@, entries: seq![] }),
    {
        let r = Env { file, entries: Vec::new() };
        assert(entries_model(r.entries@) =~= seq![]);
        r
    }

    /// Appends an entry.
    pub(crate) fn push_entry(&mut self, entry: Entry)
        ensures
            final(self)@ == (EnvModel {
                file: old(self)@.file,
                entries: old(self)@.entries.push(entry@),
            }),
    {
        let ghost old_entries = self.entries@;
        self.entries.push(entry);
        assert(entries_model(self.entries@) =~= entries_model(old_entries).push(entry@));
    }

    /// Appends the variable `name=value`.
    pub fn add(&mut self, name: &str, value: &str)
        ensures
            final(self)@ == (EnvModel {
                file: old(self)@.file,
                entries: old(self)@.entries.push(
                    EntryModel::Var(VarModel { name: name@, value: value@ }),
                ),
            }),
    {
        self.push_entry(Entry::Var(Var::new(name, value)));
    }

    /// Appends an empty line.
    pub fn add_empty_line(&mut self)
        ensures
            final(self)@ == (EnvModel {
                file: old(self)@.file,
                entries: old(self)@.entries.push(EntryModel::Empty),
            }),
    {
        self.push_entry(Entry::Empty);
    }

    /// The entries of the env.
    pub(crate) fn entries(&self) -> (r: &Vec<Entry>)
        ensures
            entries_model(r@) == self@.entries,
    {
        &self.entries
    }

    /// The first variable named `name`.
    pub fn get(&self, name: &str) -> (r: Result<&Var, EnvError>)
        ensures
            match (r, find_var(self@.entries, name@)) {
                (Ok(v), Some(m)) => v@ == m,
                (Err(e), None) => e@ == EnvErrorModel::EnvVarNotFound(name@, self@.file),
                _ => false,
            },
    {
        let wanted = name.to_owned();
        let mut i: usize = 0;
        assert(self@.entries.skip(0) =~= self@.entries);
        while i < self.entries.len()
            invariant
                i <= self.entries@.len(),
                wanted@ == name@,
                find_var(self@.entries, name@) == find_var(self@.entries.skip(i as int), name@),
            decreases self.entries@.len() - i,
        {
            assert(self@.entries.skip(i as int)[0] == self.entries@[i as int]@);
            assert(self@.entries.skip(i as int).skip(1) =~= self@.entries.skip(i + 1));
            if let Entry::Var(var) = &self.entries[i] {
                if var.name().eq(&wanted) {
                    return Ok(var);
                }
            }
            i = i + 1;
        }
        Err(EnvError::EnvVarNotFound(wanted, self.file.clone()))
    }

    /// Whether the variable `name` is defined with the value `value`.
    pub fn is_set(&self, name: &str, value: &str) -> (r: bool)
        ensures
            r == (find_var(self@.entries, name@) matches Some(v) && v.value == value@),
    {
        match self.get(name) {
            Ok(var) => {
                let wanted = value.to_owned();
                var.value().eq(&wanted)
            },
            Err(_) => false,
        }
    }

    /// Reads the lines of `content` and appends their entries. The reading
    /// stops at the first line that cannot be read; the entries of the lines
    /// before it are kept, and its error is returned.
    pub fn entries_from_reader(&mut self, content: &str) -> (r: Result<(), EnvReaderError>)
        ensures
            final(self)@ == (EnvModel {
                file: old(self)@.file,
                entries: old(self)@.entries + parse_content(content@).0,
            }),
            match (r, parse_content(content@).1) {
                (Ok(()), None) => true,
                (Err(e), Some(m)) => e@ == m,
                _ => false,
            },
    {
        let v = str_to_chars(content);
        let n = v.len();
        let ghost start = self@.entries;
        let mut pos: usize = 0;
        assert(v@.skip(0) =~= v@);
        while pos < n
            invariant
                pos <= n == v@.len(),
                v@ == content@,
                self@.file == old(self)@.file,
                start == old(self)@.entries,
                self@.entries.len() >= start.len(),
                self@.entries.take(start.len() as int) == start,
                parse_content(v@) == ({
                    let rest = parse_lines(split_lines(v@.skip(pos as int)));
                    (self@.entries.skip(start.len() as int) + rest.0, rest.1)
                }),
            decreases n - pos,
        {
            let mut j = pos;
            while j < n && v[j] != '\n'
                invariant
                    pos <= j <= n == v@.len(),
                    forall|k: int| pos <= k < j ==> v@[k] != '\n',
                decreases n - j,
            {
                j = j + 1;
            }
            let ghost rest = v@.skip(pos as int);
            proof {
                lemma_line_len_at(rest, j - pos);
                assert(rest.take(j - pos) =~= v@.subrange(pos as int, j as int));
                if j < n {
                    assert(rest.skip(j - pos + 1) =~= v@.skip(j + 1));
                } else {
                    assert(rest.take(j - pos) =~= rest);
                }
            }
            let lo = trim_start_char_range(&v, pos, j, '\u{feff}');
            let lo = trim_start_range(&v, lo, j);
            let hi = trim_end_range(&v, lo, j);
            let ghost line = v@.subrange(pos as int, j as int);
            let entry = if lo == hi {
                Entry::Empty
            } else {
                let t = string_from_range(&v, lo, hi);
                match Comment::from_line(&t) {
                    Some(c) => Entry::Comment(c),
                    None => match Var::from_line(&t) {
                        Ok(var) => Entry::Var(var),
                        Err(e) => {
                            proof {
                                assert(self@.entries =~= start + self@.entries.skip(
                                    start.len() as int,
                                ));
                            }
                            return Err(e);
                        },
                    },
                }
            };
            assert(parse_line(line) == Ok::<EntryModel, ReaderErrorModel>(entry@));
            let ghost before = self@.entries;
            self.push_entry(entry);
            assert(self@.entries.skip(start.len() as int) =~= before.skip(start.len() as int).push(entry@));
            assert(self@.entries.take(start.len() as int) =~= before.take(start.len() as int));
            if j < n {
                proof {
                    assert(split_lines(rest).skip(1) =~= split_lines(v@.skip(j + 1)));
                }
                pos = j + 1;
            } else {
                proof {
                    assert(split_lines(rest).skip(1) =~= seq![]);
                    assert(v@.skip(n as int) =~= seq![]);
                }
                pos = n;
            }
        }
        proof {
            assert(v@.skip(n as int) =~= seq![]);
            assert(self@.entries =~= start + self@.entries.skip(start.len() as int));
        }
        Ok(())
    }

    /// Changes the file of the env.
    pub fn set_file(&mut self, file: String)
        ensures
            final(self)@ == (EnvModel { file: file@, entries: old(self)@.entries }),
    {
        self.file = file;
    }

    /// The file of the env.
    pub fn file(&self) -> (r: &String)
        ensures
            r@ == self@.file,
    {
        &self.file
    }

    /// The final component of the file path.
    pub fn file_name(&self) -> (r: Result<String, EnvError>)
        ensures
            match (r, file_name_of(self@.file)) {
                (Ok(name), Some(m)) => name@ == m,
                (Err(e), None) => e@ == EnvErrorModel::EnvFileHasNoFileName(self@.file),
                _ => false,
            },
    {
        match path_file_name(self.file.as_str()) {
            Some(name) => Ok(name),
            None => Err(EnvError::EnvFileHasNoFileName(self.file.clone())),
        }
    }

    /// The name of the env: its file name without the leading `.`.
    pub fn name(&self) -> (r: Result<String, EnvError>)
        ensures
            match (r, env_name_spec(self@.file)) {
                (Ok(name), Ok(m)) => name@ == m,
                (Err(e), Err(m)) => e@ == m,
                _ => false,
            },
    {
        let file_name = self.file_name()?;
        let v = str_to_chars(file_name.as_str());
        if v.len() == 0 {
            return Err(EnvError::EnvFileNameIsEmpty(self.file.clone()));
        }
        if v[0] != '.' {
            return Err(EnvError::EnvFileNameIncorrect(self.file.clone()));
        }
        let lo = trim_start_char_range(&v, 0, v.len(), '.');
        assert(v@.subrange(0, v@.len() as int) =~= v@);
        Ok(string_from_range(&v, lo, v.len()))
    }

    /// The text of the env file: each entry on its line.
    pub fn to_string(&self) -> (r: String)
        ensures
            r@ == render(self@.entries),
    {
        let mut out: Vec<char> = Vec::new();
        let mut i: usize = 0;
        while i < self.entries.len()
            invariant
                i <= self.entries@.len(),
                out@ == render(self@.entries.take(i as int)),
            decreases self.entries@.len() - i,
        {
            let ghost before = out@;
            match &self.entries[i] {
                Entry::Var(var) => {
                    push_str(&mut out, var.name().as_str());
                    out.push('=');
                    push_str(&mut out, var.value().as_str());
                    out.push('\n');
                },
                Entry::Comment(comment) => {
                    out.push('#');
                    push_str(&mut out, comment.value().as_str());
                    out.push('\n');
                },
                Entry::Empty => {
                    out.push('\n');
                },
            }
            proof {
                let es = self@.entries;
                assert(es.take(i + 1).drop_last() =~= es.take(i as int));
                assert(es.take(i + 1).last() == self.entries@[i as int]@);
                assert(out@ =~= before + render_entry(self.entries@[i as int]@));
            }
            i = i + 1;
        }
        assert(self@.entries.take(i as int) =~= self@.entries);
        string_from_chars(&out)
    }

    /// A copy of the env, bound to another file.
    pub fn copy(&self, file: String) -> (r: Self)
        ensures
            r@ == (EnvModel { file: file@, entries: self@.entries }),
    {
        Env { file, entries: clone_entries(&self.entries) }
    }
}

/// The path of the env file of the env `env_name` in the directory `dir`:
/// `dir` joined with `.` followed by the name.
pub fn path_from_env_name(dir: &str, env_name: &String) -> (r: String)
    ensures
        r@ == join_of(dir@, seq!['.'] + env_name@),
{
    let mut name: Vec<char> = Vec::new();
    name.push('.');
    push_str(&mut name, env_name.as_str());
    let name = string_from_chars(&name);
    assert(name@ =~= seq!['.'] + env_name@);
    path_join(dir, name.as_str())
}

/// Whether a file of an env directory is an env file: its name starts with
/// a dot (other files are ignored when the directory is read).
pub fn is_env_file_name(file_name: &str) -> (r: bool)
    ensures
        r == (file_name@.len() > 0 && file_name@[0] == '.'),
{
    let v = str_to_chars(file_name);
    v.len() > 0 && v[0] == '.'
}

/// What [`Env::get`] finds after [`Env::add`]: adding a variable never hides
/// a variable of the same name that was already there, and when there was
/// none, the added variable is found with its value.
pub proof fn lemma_get_after_add(es: Seq<EntryModel>, name: Seq<char>, value: Seq<char>, wanted: Seq<char>)
    ensures
        find_var(es.push(EntryModel::Var(VarModel { name, value })), wanted) == match find_var(es, wanted) {
            Some(v) => Some(v),
            None => if wanted == name {
                Some(VarModel { name, value })
            } else {
                None
            },
        },
    decreases es.len(),
{
    let added = EntryModel::Var(VarModel { name, value });
    if es.len() == 0 {
        assert(es.push(added).skip(1) =~= Seq::<EntryModel>::empty());
        assert(find_var(Seq::<EntryModel>::empty(), wanted) is None);
        assert(find_var(es, wanted) is None);
    } else {
        lemma_get_after_add(es.skip(1), name, value, wanted);
        assert(es.push(added).skip(1) =~= es.skip(1).push(added));
        assert(es.push(added)[0] == es[0]);
    }
}

} // verus!
