use vstd::prelude::*;

use crate::case::{
    camel_case_of, kebab_case_of, mixed_case_of, shouty_snake_case_of, snake_case_of,
    title_case_of, to_camel_case, to_kebab_case, to_mixed_case, to_shouty_snake_case,
    to_snake_case, to_title_case,
};
use crate::cfg::{ArrayVar, ArrayVarModel, ArrayVars, VarCase, VarName, Vars};
use crate::env_file;
use crate::env_file::{
    entries_model, env_name_spec, find_var, Entry, Env, EntryModel, EnvError, VarModel,
};
use crate::pattern::{regex_compiles, regex_error_message, regex_matches, Pattern};
use crate::env_file::iter::{env_vars_of, lemma_env_vars_of_step};
use crate::run_file::RunFileError;
use crate::text::{replace, replace_all};

verus! {

/// Name of the variable that holds the name of the current env.
pub const ENV_ENVIRONMENT_VAR: &'static str = "short_env";

/// Name of the variable that holds the name of the current setup.
pub const ENV_SETUP_VAR: &'static str = "short_setup";

/// The value given to a variable of the run file: one env variable, or the
/// env variables gathered by an array variable.
#[derive(Debug)]
pub enum EnvValue {
    Var(env_file::Var),
    ArrayVar((ArrayVar, Vec<env_file::Var>)),
}

/// Mathematical model of an [`EnvValue`].
pub enum EnvValueModel {
    Var(VarModel),
    ArrayVar(ArrayVarModel, Seq<VarModel>),
}

/// The models of a list of variables.
pub open spec fn vars_model(vs: Seq<env_file::Var>) -> Seq<VarModel> {
    vs.map_values(|v: env_file::Var| v@)
}

impl View for EnvValue {
    type V = EnvValueModel;

    open spec fn view(&self) -> EnvValueModel {
        match self {
            EnvValue::Var(v) => EnvValueModel::Var(v@),
            EnvValue::ArrayVar((a, vs)) => EnvValueModel::ArrayVar(a@, vars_model(vs@)),
        }
    }
}

/// `name` written in the case `case`.
pub open spec fn in_case(case: VarCase, name: Seq<char>) -> Seq<char> {
    match case {
        VarCase::CamelCase => camel_case_of(name),
        VarCase::KebabCase => kebab_case_of(name),
        VarCase::SnakeCase => snake_case_of(name),
        VarCase::ShoutySnakeCase => shouty_snake_case_of(name),
        VarCase::MixedCase => mixed_case_of(name),
        VarCase::TitleCase => title_case_of(name),
        VarCase::NoCase => name,
    }
}

/// The format of the gathered variables of `a` (`{key}:{value}` by default).
pub open spec fn format_of(a: ArrayVarModel) -> Seq<char> {
    match a.format {
        Some(f) => f,
        None => "{key}:{value}"@,
    }
}

/// The delimiter between the gathered variables of `a` (`,` by default).
pub open spec fn delimiter_of(a: ArrayVarModel) -> Seq<char> {
    match a.delimiter {
        Some(d) => d,
        None => ","@,
    }
}

/// How the gathered variable `v` is written in the value of `a`: the format
/// with `{key}` replaced by the name (in the case of `a`), then `{value}`
/// replaced by the value.
pub open spec fn array_item_text(a: ArrayVarModel, v: VarModel) -> Seq<char> {
    replace_all(
        replace_all(format_of(a), "{key}"@, in_case(a.case, v.name)),
        "{value}"@,
        v.value,
    )
}

/// The value of the array variable `a` gathering `vs`: their texts joined by
/// the delimiter.
pub open spec fn array_value_text(a: ArrayVarModel, vs: Seq<VarModel>) -> Seq<char>
    decreases vs.len(),
{
    if vs.len() == 0 {
        seq![]
    } else if vs.len() == 1 {
        array_item_text(a, vs[0])
    } else {
        array_value_text(a, vs.drop_last()) + delimiter_of(a) + array_item_text(a, vs.last())
    }
}

/// The text of a value.
pub open spec fn env_value_text(v: EnvValueModel) -> Seq<char> {
    match v {
        EnvValueModel::Var(var) => var.value,
        EnvValueModel::ArrayVar(a, vs) => array_value_text(a, vs),
    }
}

/// The name of the gathered variable `var` as the array variable
/// `array_var` writes it.
pub fn var_name(array_var: &ArrayVar, var: &env_file::Var) -> (r: String)
    ensures
        r@ == in_case(array_var@.case, var@.name),
{
    let name = var.name().as_str();
    match array_var.case() {
        VarCase::CamelCase => to_camel_case(name),
        VarCase::KebabCase => to_kebab_case(name),
        VarCase::SnakeCase => to_snake_case(name),
        VarCase::ShoutySnakeCase => to_shouty_snake_case(name),
        VarCase::MixedCase => to_mixed_case(name),
        VarCase::TitleCase => to_title_case(name),
        VarCase::NoCase => var.name().clone(),
    }
}

impl EnvValue {
    /// The text of the value: the value of the variable, or the gathered
    /// variables each written in the format of the array variable and
    /// joined by its delimiter.
    pub fn to_string(&self) -> (r: String)
        ensures
            r@ == env_value_text(self@),
    {
        match self {
            EnvValue::Var(value) => value.value().clone(),
            EnvValue::ArrayVar((array_var, values)) => {
                let mut buf = String::new();
                let mut i: usize = 0;
                while i < values.len()
                    invariant
                        i <= values@.len(),
                        buf@ == array_value_text(array_var@, vars_model(values@.take(i as int))),
                    decreases values@.len() - i,
                {
                    proof {
                        reveal_strlit("{key}");
                        reveal_strlit("{value}");
                    }
                    let ghost before = vars_model(values@.take(i as int));
                    let var = &values[i];
                    if i > 0 {
                        match array_var.delimiter() {
                            Some(d) => buf.append(d.as_str()),
                            None => buf.append(","),
                        }
                    }
                    let name = var_name(array_var, var);
                    let format = match array_var.format() {
                        Some(f) => f.clone(),
                        None => "{key}:{value}".to_owned(),
                    };
                    let format = replace(format.as_str(), "{key}", name.as_str());
                    let format = replace(format.as_str(), "{value}", var.value().as_str());
                    buf.append(format.as_str());
                    proof {
                        let now = vars_model(values@.take(i + 1));
                        assert(now.drop_last() =~= before);
                        assert(now.last() == var@);
                        if i == 0 {
                            assert(before =~= seq![]);
                        }
                    }
                    i = i + 1;
                }
                assert(values@.take(i as int) =~= values@);
                buf
            },
        }
    }
}

/// A variable of the run file with its value.
#[derive(Debug)]
pub struct EnvVar(VarName, EnvValue);

/// Mathematical model of an [`EnvVar`]: the variable name and its value.
pub struct EnvVarModel {
    pub var: Seq<char>,
    pub value: EnvValueModel,
}

impl View for EnvVar {
    type V = EnvVarModel;

    closed spec fn view(&self) -> EnvVarModel {
        EnvVarModel { var: self.0@, value: self.1@ }
    }
}

/// The variables among `vars` whose names the pattern `pattern` matches, in order.
pub open spec fn matching_vars(vars: Seq<VarModel>, pattern: Seq<char>) -> Seq<VarModel>
    decreases vars.len(),
{
    if vars.len() == 0 {
        seq![]
    } else if regex_matches(pattern, vars[0].name) {
        seq![vars[0]] + matching_vars(vars.skip(1), pattern)
    } else {
        matching_vars(vars.skip(1), pattern)
    }
}

/// What [`generate_array_env_var`] gives for the entries `es` and the
/// array variable `a` (when its pattern compiles).
pub open spec fn array_env_var_spec(es: Seq<EntryModel>, a: ArrayVarModel) -> EnvVarModel {
    EnvVarModel {
        var: a.var,
        value: EnvValueModel::ArrayVar(a, matching_vars(env_vars_of(es), a.pattern)),
    }
}

/// What [`generate_env_var`] gives for the entries `es` and the variable `var`:
/// the first env variable named `var` in SHOUTY_SNAKE_CASE, or an empty one
/// named `var`.
pub open spec fn env_var_spec(es: Seq<EntryModel>, var: Seq<char>) -> EnvVarModel {
    EnvVarModel {
        var,
        value: EnvValueModel::Var(
            match find_var(es, shouty_snake_case_of(var)) {
                Some(v) => v,
                None => VarModel { name: var, value: seq![] },
            },
        ),
    }
}

impl EnvVar {
    /// The variable name.
    pub fn var(&self) -> (r: &VarName)
        ensures
            r@ == self@.var,
    {
        &self.0
    }

    /// The value.
    pub fn env_value(&self) -> (r: &EnvValue)
        ensures
            r@ == self@.value,
    {
        &self.1
    }

    /// A variable from its name and value.
    pub fn from_parts(var: VarName, value: EnvValue) -> (r: Self)
        ensures
            r@ == (EnvVarModel { var: var@, value: value@ }),
    {
        EnvVar(var, value)
    }

    /// The variable `short_env`, whose value is the name of `env`.
    pub fn from_env(env: &Env) -> (r: Result<Self, EnvError>)
        ensures
            match (r, env_name_spec(env@.file)) {
                (Ok(v), Ok(name)) => v@ == (EnvVarModel {
                    var: ENV_ENVIRONMENT_VAR@,
                    value: EnvValueModel::Var(VarModel { name: ENV_SETUP_VAR@, value: name }),
                }),
                (Err(e), Err(m)) => e@ == m,
                _ => false,
            },
    {
        let var = VarName::new(ENV_ENVIRONMENT_VAR.to_owned());
        let name = env.name()?;
        let env_var = env_file::Var::new(ENV_SETUP_VAR, name.as_str());
        Ok(EnvVar(var, EnvValue::Var(env_var)))
    }

    /// The variable `short_setup`, whose value is the name of the setup,
    /// `setup_name`.
    pub fn from_setup(setup_name: &String) -> (r: Self)
        ensures
            r@ == (EnvVarModel {
                var: ENV_SETUP_VAR@,
                value: EnvValueModel::Var(VarModel { name: ENV_SETUP_VAR@, value: setup_name@ }),
            }),
    {
        let var = VarName::new(ENV_SETUP_VAR.to_owned());
        let env_var = env_file::Var::new(ENV_SETUP_VAR, setup_name.as_str());
        EnvVar(var, EnvValue::Var(env_var))
    }
}

/// The array variable `array_var` with the env variables of `env` whose
/// names its pattern matches.
pub fn generate_array_env_var(env: &Env, array_var: &ArrayVar) -> (r: Result<EnvVar, RunFileError>)
    ensures
        r is Ok <==> regex_compiles(array_var@.pattern),
        r matches Ok(v) ==> v@ == array_env_var_spec(env@.entries, array_var@),
{
    let re = match Pattern::compile(array_var.pattern().as_str()) {
        Ok(re) => re,
        Err(e) => {
            return Err(
                RunFileError::InvalidPattern {
                    pattern: array_var.pattern().clone(),
                    message: regex_error_message(&e),
                },
            );
        },
    };
    let entries = env.entries();
    let ghost es = env@.entries;
    let ghost pattern = array_var@.pattern;
    let mut values: Vec<env_file::Var> = Vec::new();
    let mut i: usize = 0;
    assert(es.skip(0) =~= es);
    while i < entries.len()
        invariant
            i <= entries@.len() == es.len(),
            es == env@.entries,
            entries_model(entries@) == es,
            re@ == pattern,
            matching_vars(env_vars_of(es), pattern) == vars_model(values@) + matching_vars(
                env_vars_of(es.skip(i as int)),
                pattern,
            ),
        decreases entries@.len() - i,
    {
        proof {
            lemma_env_vars_of_step(es, i as int);
        }
        assert(es[i as int] == entries@[i as int]@);
        if let Entry::Var(var) = &entries[i] {
            let ghost tail = env_vars_of(es.skip(i + 1));
            assert((seq![var@] + tail).skip(1) =~= tail);
            assert((seq![var@] + tail)[0] == var@);
            let ghost before = vars_model(values@);
            if re.is_match(var.name().as_str()) {
                values.push(var.clone());
                assert(vars_model(values@) =~= before.push(var@));
                assert(before + matching_vars(seq![var@] + tail, pattern) =~= vars_model(values@)
                    + matching_vars(tail, pattern));
            }
        }
        i = i + 1;
    }
    assert(es.skip(i as int) =~= seq![]);
    assert(vars_model(values@) + seq![] =~= vars_model(values@));
    Ok(EnvVar(array_var.var().clone(), EnvValue::ArrayVar((array_var.clone(), values))))
}

/// The variable `var` with the first env variable of `env` named `var` in
/// SHOUTY_SNAKE_CASE, or with an empty variable named `var` when there is none.
pub fn generate_env_var(env: &Env, var: &VarName) -> (r: EnvVar)
    ensures
        r@ == env_var_spec(env@.entries, var@),
{
    let env_name = var.to_env_var();
    match env.get(env_name.as_str()) {
        Ok(env_var) => {
            let r = EnvVar(var.clone(), EnvValue::Var(env_var.clone()));
            assert(r@.var == var@);
            assert(r@.value == EnvValueModel::Var(env_var@));
            assert(find_var(env@.entries, shouty_snake_case_of(var@)) == Some(env_var@));
            r
        },
        Err(_) => {
            proof {
                reveal_strlit("");
            }
            let name = var.to_string();
            let r = EnvVar(var.clone(), EnvValue::Var(env_file::Var::new(name.as_str(), "")));
            assert(""@ =~= Seq::<char>::empty());
            assert(find_var(env@.entries, shouty_snake_case_of(var@)) is None);
            assert(r@.value == EnvValueModel::Var(VarModel { name: var@, value: seq![] }));
            r
        },
    }
}

/// The variables of the run script: first each array variable with the env
/// variables it gathers; then each variable of `vars` with its env variable,
/// or, without `vars`, each env variable under its own name.
pub fn generate_env_vars(env: &Env, array_vars: &ArrayVars, vars: Option<&Vars>) -> (r: Result<
    Vec<EnvVar>,
    RunFileError,
>)
    ensures
        r is Ok <==> forall|i: int|
            0 <= i < array_vars@.len() ==> regex_compiles(#[trigger] array_vars@[i].pattern),
        r matches Ok(list) ==> list@.map_values(|v: EnvVar| v@) == array_vars@.map_values(
            |a: ArrayVarModel| array_env_var_spec(env@.entries, a),
        ) + match vars {
            Some(vs) => vs@.map_values(|name: Seq<char>| env_var_spec(env@.entries, name)),
            None => env_vars_of(env@.entries).map_values(
                |v: VarModel| EnvVarModel { var: v.name, value: EnvValueModel::Var(v) },
            ),
        },
{
    let mut list: Vec<EnvVar> = Vec::new();
    let avs = array_vars.inner();
    let ghost es = env@.entries;
    let mut i: usize = 0;
    while i < avs.len()
        invariant
            i <= avs@.len(),
            avs@.map_values(|a: ArrayVar| a@) == array_vars@,
            es == env@.entries,
            forall|k: int| 0 <= k < i ==> regex_compiles(#[trigger] array_vars@[k].pattern),
            list@.len() == i,
            list@.map_values(|v: EnvVar| v@) == array_vars@.take(i as int).map_values(
                |a: ArrayVarModel| array_env_var_spec(es, a),
            ),
        decreases avs@.len() - i,
    {
        assert(avs@[i as int]@ == array_vars@[i as int]);
        let ghost old_list = list@;
        let env_var = generate_array_env_var(env, &avs[i])?;
        let ghost item = env_var@;
        list.push(env_var);
        proof {
            let f = |a: ArrayVarModel| array_env_var_spec(es, a);
            let g = |v: EnvVar| v@;
            assert(list@.map_values(g) =~= old_list.map_values(g).push(item));
            assert(array_vars@.take(i + 1) =~= array_vars@.take(i as int).push(array_vars@[i as int]));
            assert(array_vars@.take(i + 1).map_values(f) =~= array_vars@.take(i as int).map_values(f).push(
                f(array_vars@[i as int]),
            ));
        }
        i = i + 1;
    }
    assert(array_vars@.take(i as int) =~= array_vars@);
    let ghost first = list@.map_values(|v: EnvVar| v@);
    match vars {
        Some(vs) => {
            let names = vs.inner();
            let mut j: usize = 0;
            while j < names.len()
                invariant
                    j <= names@.len(),
                    names@.map_values(|v: VarName| v@) == vs@,
                    es == env@.entries,
                    list@.map_values(|v: EnvVar| v@) == first + vs@.take(j as int).map_values(
                        |name: Seq<char>| env_var_spec(es, name),
                    ),
                decreases names@.len() - j,
            {
                assert(names@[j as int]@ == vs@[j as int]);
                let ghost old_list = list@;
                let env_var = generate_env_var(env, &names[j]);
                let ghost item = env_var@;
                list.push(env_var);
                proof {
                    let f = |name: Seq<char>| env_var_spec(es, name);
                    let g = |v: EnvVar| v@;
                    assert(list@.map_values(g) =~= old_list.map_values(g).push(item));
                    assert(vs@.take(j + 1) =~= vs@.take(j as int).push(vs@[j as int]));
                    assert(vs@.take(j + 1).map_values(f) =~= vs@.take(j as int).map_values(f).push(
                        f(vs@[j as int]),
                    ));
                    assert(list@.map_values(g) =~= first + vs@.take(j + 1).map_values(f));
                }
                j = j + 1;
            }
            assert(vs@.take(j as int) =~= vs@);
        },
        None => {
            let entries = env.entries();
            let mut j: usize = 0;
            assert(es.skip(0) =~= es);
            while j < entries.len()
                invariant
                    j <= entries@.len() == es.len(),
                    entries_model(entries@) == es,
                    es == env@.entries,
                    list@.map_values(|v: EnvVar| v@) + env_vars_of(es.skip(j as int)).map_values(
                        |v: VarModel| EnvVarModel { var: v.name, value: EnvValueModel::Var(v) },
                    ) == first + env_vars_of(es).map_values(
                        |v: VarModel| EnvVarModel { var: v.name, value: EnvValueModel::Var(v) },
                    ),
                decreases entries@.len() - j,
            {
                proof {
                    lemma_env_vars_of_step(es, j as int);
                }
                assert(es[j as int] == entries@[j as int]@);
                if let Entry::Var(var) = &entries[j] {
                    let ghost tail = env_vars_of(es.skip(j + 1));
                    let ghost before = list@.map_values(|v: EnvVar| v@);
                    let env_var = EnvVar(VarName::new(var.name().clone()), EnvValue::Var(var.clone()));
                    list.push(env_var);
                    assert(list@.map_values(|v: EnvVar| v@) =~= before.push(
                        EnvVarModel { var: var@.name, value: EnvValueModel::Var(var@) },
                    ));
                    assert((seq![var@] + tail).map_values(
                        |v: VarModel| EnvVarModel { var: v.name, value: EnvValueModel::Var(v) },
                    ) =~= seq![EnvVarModel { var: var@.name, value: EnvValueModel::Var(var@) }]
                        + tail.map_values(
                        |v: VarModel| EnvVarModel { var: v.name, value: EnvValueModel::Var(v) },
                    ));
                }
                j = j + 1;
            }
            assert(es.skip(j as int) =~= seq![]);
        },
    }
    Ok(list)
}

} // verus!
