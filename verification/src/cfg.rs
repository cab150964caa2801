//! The variable settings of a setup that the run file and its environment
//! are generated from: plain variables, and array variables that gather the
//! env variables whose names match a pattern.
use vstd::prelude::*;

use crate::case::{shouty_snake_case_of, snake_case_of, to_shouty_snake_case, to_snake_case};

verus! {

/// The name of a variable of a setup, as written in its settings.
#[derive(Debug)]
pub struct VarName(String);

impl View for VarName {
    type V = Seq<char>;

    closed spec fn view(&self) -> Seq<char> {
        self.0@
    }
}

impl Clone for VarName {
    fn clone(&self) -> (r: Self)
        ensures
            r@ == self@,
    {
        VarName(self.0.clone())
    }
}

impl VarName {
    pub fn new(name: String) -> (r: Self)
        ensures
            r@ == name@,
    {
        VarName(name)
    }

    /// The name of the script variable: the name in snake_case.
    pub fn to_var(&self) -> (r: String)
        ensures
            r@ == snake_case_of(self@),
    {
        to_snake_case(self.0.as_str())
    }

    /// The name of the environment variable: the name in SHOUTY_SNAKE_CASE.
    pub fn to_env_var(&self) -> (r: String)
        ensures
            r@ == shouty_snake_case_of(self@),
    {
        to_shouty_snake_case(self.0.as_str())
    }

    /// The name as written.
    pub fn to_string(&self) -> (r: String)
        ensures
            r@ == self@,
    {
        self.0.clone()
    }
}

/// The case that the names of the variables gathered by an array variable
/// are written in (`NoCase`: as they are).
#[derive(Debug, Clone, Copy)]
pub enum VarCase {
    CamelCase,
    KebabCase,
    SnakeCase,
    ShoutySnakeCase,
    MixedCase,
    TitleCase,
    NoCase,
}

/// An array variable: a variable name, the pattern of the env variables it
/// gathers, the case of their names, and how each one and the list are written.
#[derive(Debug)]
pub struct ArrayVar {
    var: VarName,
    pattern: String,
    case: VarCase,
    format: Option<String>,
    delimiter: Option<String>,
}

/// Mathematical model of an [`ArrayVar`].
pub struct ArrayVarModel {
    pub var: Seq<char>,
    pub pattern: Seq<char>,
    pub case: VarCase,
    pub format: Option<Seq<char>>,
    pub delimiter: Option<Seq<char>>,
}

/// The model of an optional text.
pub open spec fn opt_view(o: Option<String>) -> Option<Seq<char>> {
    match o {
        Some(s) => Some(s@),
        None => None,
    }
}

impl View for ArrayVar {
    type V = ArrayVarModel;

    closed spec fn view(&self) -> ArrayVarModel {
        ArrayVarModel {
            var: self.var@,
            pattern: self.pattern@,
            case: self.case,
            format: opt_view(self.format),
            delimiter: opt_view(self.delimiter),
        }
    }
}

fn clone_opt(o: &Option<String>) -> (r: Option<String>)
    ensures
        opt_view(r) == opt_view(*o),
{
    match o {
        Some(s) => Some(s.clone()),
        None => None,
    }
}

impl Clone for ArrayVar {
    fn clone(&self) -> (r: Self)
        ensures
            r@ == self@,
    {
        ArrayVar {
            var: self.var.clone(),
            pattern: self.pattern.clone(),
            case: self.case,
            format: clone_opt(&self.format),
            delimiter: clone_opt(&self.delimiter),
        }
    }
}

impl ArrayVar {
    /// The array variable `name` that gathers the env variables whose names
    /// match `pattern`; names kept as they are, default format and delimiter.
    pub fn new(name: String, pattern: String) -> (r: Self)
        ensures
            r@ == (ArrayVarModel {
                var: name@,
                pattern: pattern@,
                case: VarCase::NoCase,
                format: None,
                delimiter: None,
            }),
    {
        ArrayVar { var: VarName::new(name), pattern, case: VarCase::NoCase, format: None, delimiter: None }
    }

    pub fn var(&self) -> (r: &VarName)
        ensures
            r@ == self@.var,
    {
        &self.var
    }

    pub fn pattern(&self) -> (r: &String)
        ensures
            r@ == self@.pattern,
    {
        &self.pattern
    }

    pub fn case(&self) -> (r: VarCase)
        ensures
            r == self@.case,
    {
        self.case
    }

    pub fn format(&self) -> (r: Option<&String>)
        ensures
            match r {
                Some(f) => self@.format == Some(f@),
                None => self@.format is None,
            },
    {
        self.format.as_ref()
    }

    pub fn delimiter(&self) -> (r: Option<&String>)
        ensures
            match r {
                Some(d) => self@.delimiter == Some(d@),
                None => self@.delimiter is None,
            },
    {
        self.delimiter.as_ref()
    }

    pub fn set_case(&mut self, case: VarCase)
        ensures
            final(self)@ == (ArrayVarModel { case, ..old(self)@ }),
    {
        self.case = case;
    }

    pub fn set_format(&mut self, format: String)
        ensures
            final(self)@ == (ArrayVarModel { format: Some(format@), ..old(self)@ }),
    {
        self.format = Some(format);
    }

    pub fn set_delimiter(&mut self, delimiter: String)
        ensures
            final(self)@ == (ArrayVarModel { delimiter: Some(delimiter@), ..old(self)@ }),
    {
        self.delimiter = Some(delimiter);
    }
}

/// The array variables of a setup, in order.
#[derive(Debug)]
pub struct ArrayVars(Vec<ArrayVar>);

impl View for ArrayVars {
    type V = Seq<ArrayVarModel>;

    closed spec fn view(&self) -> Seq<ArrayVarModel> {
        self.0@.map_values(|a: ArrayVar| a@)
    }
}

impl ArrayVars {
    pub fn new() -> (r: Self)
        ensures
            r@ == Seq::<ArrayVarModel>::empty(),
    {
        let r = ArrayVars(Vec::new());
        assert(r@ =~= Seq::<ArrayVarModel>::empty());
        r
    }

    pub fn add(&mut self, array_var: ArrayVar)
        ensures
            final(self)@ == old(self)@.push(array_var@),
    {
        let ghost before = self.0@;
        self.0.push(array_var);
        assert(self.0@.map_values(|a: ArrayVar| a@) =~= before.map_values(|a: ArrayVar| a@).push(
            array_var@,
        ));
    }

    /// The array variables, in order.
    pub fn inner(&self) -> (r: &Vec<ArrayVar>)
        ensures
            r@.map_values(|a: ArrayVar| a@) == self@,
    {
        &self.0
    }
}

/// The plain variables of a setup, in order.
#[derive(Debug)]
pub struct Vars(Vec<VarName>);

impl View for Vars {
    type V = Seq<Seq<char>>;

    closed spec fn view(&self) -> Seq<Seq<char>> {
        self.0@.map_values(|v: VarName| v@)
    }
}

impl Vars {
    pub fn new() -> (r: Self)
        ensures
            r@ == Seq::<Seq<char>>::empty(),
    {
        let r = Vars(Vec::new());
        assert(r@ =~= Seq::<Seq<char>>::empty());
        r
    }

    pub fn add(&mut self, var: VarName)
        ensures
            final(self)@ == old(self)@.push(var@),
    {
        let ghost before = self.0@;
        self.0.push(var);
        assert(self.0@.map_values(|v: VarName| v@) =~= before.map_values(|v: VarName| v@).push(
            var@,
        ));
    }

    /// The variables, in order.
    pub fn inner(&self) -> (r: &Vec<VarName>)
        ensures
            r@.map_values(|v: VarName| v@) == self@,
    {
        &self.0
    }
}

} // verus!
