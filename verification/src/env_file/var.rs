use vstd::prelude::*;

use crate::env_file::error::{EnvReaderError, ReaderErrorModel};
use crate::text::{last_index_of, trim, has_ws, str_to_chars, last_index_in_range, trim_end_range, trim_start_range, string_from_range, range_has_ws};

verus! {

/// Mathematical model of a [`Var`]: its name and its value.
#[verifier::ext_equal]
pub struct VarModel {
    pub name: Seq<char>,
    pub value: Seq<char>,
}

/// A `name=value` assignment of an env file.
#[derive(Debug)]
pub struct Var {
    name: String,
    value: String,
}

impl View for Var {
    type V = VarModel;

    closed spec fn view(&self) -> VarModel {
        VarModel { name: self.name@, value: self.value@ }
    }
}

impl Clone for Var {
    fn clone(&self) -> (r: Self)
        ensures
            r@ == self@,
    {
        Var { name: self.name.clone(), value: self.value.clone() }
    }
}

/// What [`Var::from_line`] gives for `line`: the line is split at its last
/// `=`, both sides are trimmed, and the name may hold no white space.
pub open spec fn var_from_line_spec(line: Seq<char>) -> Result<VarModel, ReaderErrorModel> {
    let k = last_index_of(line, '=');
    if k < 0 {
        Err(ReaderErrorModel::Unknown)
    } else {
        let name = trim(line.take(k));
        let value = trim(line.skip(k + 1));
        if has_ws(name) {
            Err(ReaderErrorModel::SpaceOnVarName(name))
        } else {
            Ok(VarModel { name, value })
        }
    }
}

impl Var {
    /// A variable with the given name and value.
    pub fn new(name: &str, value: &str) -> (r: Self)
        ensures
            r@ == (VarModel { name: name@, value: value@ }),
    {
        Var { name: name.to_owned(), value: value.to_owned() }
    }

    /// Parses a `name=value` line.
    pub fn from_line(line: &String) -> (r: Result<Self, EnvReaderError>)
        ensures
            match (r, var_from_line_spec(line@)) {
                (Ok(v), Ok(m)) => v@ == m,
                (Err(e), Err(m)) => e@ == m,
                _ => false,
            },
    {
        let v = str_to_chars(line.as_str());
        let n = v.len();
        assert(v@.subrange(0, n as int) =~= v@);
        match last_index_in_range(&v, 0, n, '=') {
            None => Err(EnvReaderError::Unknown),
            Some(k) => {
                assert(v@.take(k as int) =~= v@.subrange(0, k as int));
                assert(v@.skip(k + 1) =~= v@.subrange(k + 1, n as int));
                let name_hi = trim_end_range(&v, 0, k);
                let name_lo = trim_start_range(&v, 0, name_hi);
                let value_hi = trim_end_range(&v, k + 1, n);
                let value_lo = trim_start_range(&v, k + 1, value_hi);
                let name = string_from_range(&v, name_lo, name_hi);
                if range_has_ws(&v, name_lo, name_hi) {
                    return Err(EnvReaderError::SpaceOnVarName(name));
                }
                let value = string_from_range(&v, value_lo, value_hi);
                Ok(Var { name, value })
            },
        }
    }

    /// The name and the value, as a pair.
    pub fn tuple(&self) -> (r: (String, String))
        ensures
            r.0@ == self@.name,
            r.1@ == self@.value,
    {
        (self.name.clone(), self.value.clone())
    }

    /// The name of the variable.
    pub fn name(&self) -> (r: &String)
        ensures
            r@ == self@.name,
    {
        &self.name
    }

    /// The value of the variable.
    pub fn value(&self) -> (r: &String)
        ensures
            r@ == self@.value,
    {
        &self.value
    }

    /// Replaces the value of the variable.
    pub fn set_value(&mut self, value: &str)
        ensures
            final(self)@ == (VarModel { name: old(self)@.name, value: value@ }),
    {
        self.value = value.to_owned();
    }
}

} // verus!
