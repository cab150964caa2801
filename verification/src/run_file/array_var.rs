use vstd::prelude::*;

use crate::case::{to_uppercase, uppercase_of};
use crate::env_file::{Entry, Env, EntryModel, VarModel};
use crate::pattern::{regex_compiles, regex_error_message, regex_matches, Pattern};
use crate::env_file::iter::{env_vars_of, lemma_env_vars_of_step};
use crate::run_file::RunFileError;
use crate::text::{push_str, string_from_chars};

verus! {

/// An array variable given as its name and the pattern of the env variables
/// it gathers.
pub type ArrayVar = (String, String);

/// A variable of the run file, with the env variable (or variables) it is given.
#[derive(Debug)]
pub struct Var {
    pub array: bool,
    pub name: String,
    pub env_name: String,
    pub env_value: String,
}

/// How a gathered variable is written in the value of an array variable:
/// `[name]='value' `.
pub open spec fn array_item(v: VarModel) -> Seq<char> {
    seq!['['] + v.name + seq![']', '=', '\''] + v.value + seq!['\'', ' ']
}

/// Scans `vars` for the array variable of pattern `pattern`, with `acc` the
/// value gathered so far: a variable named exactly `pattern` ends the scan
/// and is taken alone; otherwise each variable whose name matches is
/// appended. Gives (whether it stays an array, the env name, the env value).
pub open spec fn scan_array(vars: Seq<VarModel>, pattern: Seq<char>, acc: Seq<char>) -> (
    bool,
    Seq<char>,
    Seq<char>,
)
    decreases vars.len(),
{
    if vars.len() == 0 {
        (true, seq![], acc)
    } else if vars[0].name == pattern {
        (false, vars[0].name, vars[0].value)
    } else {
        let next = if regex_matches(pattern, vars[0].name) {
            acc + array_item(vars[0])
        } else {
            acc
        };
        scan_array(vars.skip(1), pattern, next)
    }
}

/// What [`generate_var`] gives for the env entries `es` and the array
/// variable `name` of pattern `pattern` (when the pattern compiles).
pub open spec fn generate_var_spec(es: Seq<EntryModel>, name: Seq<char>, pattern: Seq<char>) -> (
    bool,
    Seq<char>,
    Seq<char>,
    Seq<char>,
) {
    let (array, env_name, env_value) = scan_array(env_vars_of(es), pattern, seq![' ']);
    (array, name, if array {
        uppercase_of(name)
    } else {
        env_name
    }, env_value)
}

/// The variable of the run file for the array variable `array_var`
/// (name, pattern) and the env `env`.
pub fn generate_var(env: &Env, array_var: &ArrayVar) -> (r: Result<Var, RunFileError>)
    ensures
        r is Ok <==> regex_compiles(array_var.1@),
        r matches Ok(var) ==> (var.array, var.name@, var.env_name@, var.env_value@)
            == generate_var_spec(env@.entries, array_var.0@, array_var.1@),
{
    let (var_name, pattern) = array_var;
    let re = match Pattern::compile(pattern.as_str()) {
        Ok(re) => re,
        Err(e) => {
            return Err(
                RunFileError::InvalidPattern {
                    pattern: pattern.clone(),
                    message: regex_error_message(&e),
                },
            );
        },
    };
    let entries = env.entries();
    let ghost es = env@.entries;
    let mut acc: Vec<char> = Vec::new();
    acc.push(' ');
    let mut i: usize = 0;
    assert(es.skip(0) =~= es);
    while i < entries.len()
        invariant
            i <= entries@.len() == es.len(),
            es == env@.entries,
            crate::env_file::entries_model(entries@) == es,
            re@ == pattern@,
            regex_compiles(array_var.1@),
            var_name@ == array_var.0@,
            pattern@ == array_var.1@,
            scan_array(env_vars_of(es), pattern@, seq![' ']) == scan_array(
                env_vars_of(es.skip(i as int)),
                pattern@,
                acc@,
            ),
        decreases entries@.len() - i,
    {
        proof {
            lemma_env_vars_of_step(es, i as int);
        }
        assert(es[i as int] == entries@[i as int]@);
        if let Entry::Var(var) = &entries[i] {
            let ghost tail = env_vars_of(es.skip(i + 1));
            assert((seq![var@] + tail).skip(1) =~= tail);
            assert((seq![var@] + tail)[0] == var@);
            if var.name().eq(pattern) {
                let exact = Var {
                    array: false,
                    name: var_name.clone(),
                    env_name: var.name().clone(),
                    env_value: var.value().clone(),
                };
                return Ok(exact);
            }
            if re.is_match(var.name().as_str()) {
                let ghost before = acc@;
                acc.push('[');
                push_str(&mut acc, var.name().as_str());
                acc.push(']');
                acc.push('=');
                acc.push('\'');
                push_str(&mut acc, var.value().as_str());
                acc.push('\'');
                acc.push(' ');
                assert(acc@ =~= before + array_item(var@));
            }
        }
        i = i + 1;
    }
    assert(es.skip(i as int) =~= seq![]);
    Ok(
        Var {
            array: true,
            name: var_name.clone(),
            env_name: to_uppercase(var_name.as_str()),
            env_value: string_from_chars(&acc),
        },
    )
}

/// The variables of the run file for each array variable of `array_vars`,
/// in order; fails on the first pattern that does not compile.
pub fn generate_vars(env: &Env, array_vars: &Vec<ArrayVar>) -> (r: Result<Vec<Var>, RunFileError>)
    ensures
        r is Ok <==> forall|i: int|
            0 <= i < array_vars@.len() ==> regex_compiles(#[trigger] array_vars@[i].1@),
        r matches Ok(vars) ==> vars@.len() == array_vars@.len() && forall|i: int|
            0 <= i < vars@.len() ==> (#[trigger] vars@[i].array, vars@[i].name@, vars@[i].env_name@, vars@[i].env_value@)
                == generate_var_spec(env@.entries, array_vars@[i].0@, array_vars@[i].1@),
{
    let mut vars: Vec<Var> = Vec::new();
    let mut i: usize = 0;
    while i < array_vars.len()
        invariant
            i <= array_vars@.len(),
            vars@.len() == i,
            forall|k: int| 0 <= k < i ==> regex_compiles(#[trigger] array_vars@[k].1@),
            forall|k: int|
                0 <= k < i ==> (#[trigger] vars@[k].array, vars@[k].name@, vars@[k].env_name@, vars@[k].env_value@)
                    == generate_var_spec(env@.entries, array_vars@[k].0@, array_vars@[k].1@),
        decreases array_vars@.len() - i,
    {
        let var = generate_var(env, &array_vars[i])?;
        vars.push(var);
        i = i + 1;
    }
    Ok(vars)
}

} // verus!
