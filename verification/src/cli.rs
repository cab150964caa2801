//! What the commands decide: the current setup and env, how envs are
//! synchronised, which envs are selected, how the current setup is shown,
//! and the tables of variables that the commands print.
use vstd::prelude::*;

use crate::case::{shouty_snake_case_of, snake_case_of};
use crate::env_file::iter::{env_vars_of, lemma_env_vars_of_step};
use crate::env_file::{
    entries_model, env_name_spec, find_var, Entry, EntryModel, Env, EnvError, EnvErrorModel,
    EnvModel, VarModel,
};
use crate::run_file::var::{EnvValueModel, EnvVarModel};
use crate::run_file::{EnvValue, EnvVar, ENV_ENVIRONMENT_VAR, ENV_SETUP_VAR};
use crate::text::{replace, replace_all};

verus! {

/// The failures of the commands.
#[derive(Debug)]
pub enum CliError {
    /// The env directory of a setup was not found: the directory, the setup
    /// and what reading it gave.
    EnvDirNotFound(String, String, String),
    OpenEditorFail,
    ConfirmBadInputTryAgain(String),
    /// A variable may not be deleted: its name, its value and the env.
    DeleteVarNowAllowed(String, String, String),
    EnvFileMustBeSync,
    EnvFileAlreadyExists(String, Env),
    UserStopSync,
    UnknownError(String),
}

/// Which of the current setup and env is not known.
#[derive(Debug)]
pub enum SettingsError {
    SetupNotSpecified,
    EnvNotSpecified,
}

/// The current setup and env, where they are known.
#[derive(Debug)]
pub struct Settings {
    setup: Option<String>,
    env: Option<String>,
}

/// Mathematical model of [`Settings`].
pub struct SettingsModel {
    pub setup: Option<Seq<char>>,
    pub env: Option<Seq<char>>,
}

/// The model of an optional text.
pub open spec fn opt_text(o: Option<String>) -> Option<Seq<char>> {
    match o {
        Some(s) => Some(s@),
        None => None,
    }
}

impl View for Settings {
    type V = SettingsModel;

    closed spec fn view(&self) -> SettingsModel {
        SettingsModel { setup: opt_text(self.setup), env: opt_text(self.env) }
    }
}

impl Settings {
    /// Neither setup nor env known.
    pub fn new() -> (r: Self)
        ensures
            r@ == (SettingsModel { setup: None, env: None }),
    {
        Settings { setup: None, env: None }
    }

    pub fn set_setup(&mut self, setup: String)
        ensures
            final(self)@ == (SettingsModel { setup: Some(setup@), ..old(self)@ }),
    {
        self.setup = Some(setup);
    }

    pub fn set_env(&mut self, env: String)
        ensures
            final(self)@ == (SettingsModel { env: Some(env@), ..old(self)@ }),
    {
        self.env = Some(env);
    }

    /// The current setup; an error when it is not known.
    pub fn setup(&self) -> (r: Result<&String, SettingsError>)
        ensures
            match (r, self@.setup) {
                (Ok(s), Some(m)) => s@ == m,
                (Err(e), None) => e is SetupNotSpecified,
                _ => false,
            },
    {
        match &self.setup {
            Some(s) => Ok(s),
            None => Err(SettingsError::SetupNotSpecified),
        }
    }

    /// The current env; an error when it is not known.
    pub fn env(&self) -> (r: Result<&String, SettingsError>)
        ensures
            match (r, self@.env) {
                (Ok(s), Some(m)) => s@ == m,
                (Err(e), None) => e is EnvNotSpecified,
                _ => false,
            },
    {
        match &self.env {
            Some(s) => Ok(s),
            None => Err(SettingsError::EnvNotSpecified),
        }
    }
}

/// Whether the list of setups points at the setup `setup_name`: it is the
/// current setup, and no env is current.
pub fn is_current_setup(settings: &Settings, setup_name: &String) -> (r: bool)
    ensures
        r == (settings@.setup == Some(setup_name@) && settings@.env is None),
{
    match (settings.setup(), settings.env()) {
        (Ok(setup), Err(_)) => setup.eq(setup_name),
        _ => false,
    }
}

/// Whether the list of setups points at the env `env_name` of the setup
/// `setup_name`: both are the current ones.
pub fn is_current_env(settings: &Settings, setup_name: &String, env_name: &String) -> (r: bool)
    ensures
        r == (settings@.env == Some(env_name@) && settings@.setup == Some(setup_name@)),
{
    match (settings.env(), settings.setup()) {
        (Ok(env), Ok(setup)) => env.eq(env_name) && setup.eq(setup_name),
        _ => false,
    }
}

/// The format in which the current setup is shown by default.
pub const DEFAULT_SHOW_FORMAT: &'static str = "[{setup}:{env}]";

/// `o`, or the empty text.
pub open spec fn or_empty(o: Option<Seq<char>>) -> Seq<char> {
    match o {
        Some(s) => s,
        None => seq![],
    }
}

/// The current setup shown in `format` (by default `[{setup}:{env}]`):
/// `{setup}` is replaced by the setup, then `{env}` by the env, each by
/// nothing when it is not known.
pub fn show_format(format: Option<&str>, settings: &Settings) -> (r: String)
    ensures
        r@ == replace_all(
            replace_all(
                match format {
                    Some(f) => f@,
                    None => DEFAULT_SHOW_FORMAT@,
                },
                "{setup}"@,
                or_empty(settings@.setup),
            ),
            "{env}"@,
            or_empty(settings@.env),
        ),
{
    proof {
        reveal_strlit("{setup}");
        reveal_strlit("{env}");
        reveal_strlit("");
    }
    let format = match format {
        Some(f) => f,
        None => DEFAULT_SHOW_FORMAT,
    };
    let setup = match settings.setup() {
        Ok(s) => s.as_str(),
        Err(_) => "",
    };
    let env = match settings.env() {
        Ok(e) => e.as_str(),
        Err(_) => "",
    };
    assert(""@ =~= Seq::<char>::empty());
    assert(setup@ == or_empty(settings@.setup));
    assert(env@ == or_empty(settings@.env));
    let format = replace(format, "{setup}", setup);
    replace(format.as_str(), "{env}", env)
}

/// How the synchronisation of envs treats the variables it adds and those
/// it removes, and where the reference env comes from.
#[derive(Debug)]
pub struct SyncSettings {
    pub empty: bool,
    pub copy: bool,
    pub delete: bool,
    pub no_delete: bool,
    pub file: Option<String>,
}

/// What to do with a variable that the synchronisation adds to an env.
#[derive(Debug, Clone, Copy, PartialEq, Eq, Structural)]
pub enum UpdateAction {
    /// Add it with an empty value.
    SetEmpty,
    /// Add it with the value it has in the reference env.
    Copy,
    /// Ask for its value.
    Ask,
}

/// What to do with a variable that the synchronisation removes from an env.
#[derive(Debug, Clone, Copy, PartialEq, Eq, Structural)]
pub enum DeleteAction {
    /// Remove it.
    Delete,
    /// Refuse: the synchronisation fails.
    Refuse,
    /// Ask whether to remove it.
    Ask,
}

impl SyncSettings {
    pub fn new(empty: bool, copy: bool, delete: bool, no_delete: bool, file: Option<String>) -> (r:
        Self)
        ensures
            r.empty == empty,
            r.copy == copy,
            r.delete == delete,
            r.no_delete == no_delete,
            r.file == file,
    {
        SyncSettings { empty, copy, delete, no_delete, file }
    }

    /// What to do with an added variable: empty it when `empty` is set, else
    /// copy it when `copy` is set, else ask.
    pub fn update_action(&self) -> (r: UpdateAction)
        ensures
            r == (if self.empty {
                UpdateAction::SetEmpty
            } else if self.copy {
                UpdateAction::Copy
            } else {
                UpdateAction::Ask
            }),
    {
        if self.empty {
            UpdateAction::SetEmpty
        } else if self.copy {
            UpdateAction::Copy
        } else {
            UpdateAction::Ask
        }
    }

    /// What to do with a removed variable: remove it when `delete` is set,
    /// else refuse when `no_delete` is set, else ask.
    pub fn delete_action(&self) -> (r: DeleteAction)
        ensures
            r == (if self.delete {
                DeleteAction::Delete
            } else if self.no_delete {
                DeleteAction::Refuse
            } else {
                DeleteAction::Ask
            }),
    {
        if self.delete {
            DeleteAction::Delete
        } else if self.no_delete {
            DeleteAction::Refuse
        } else {
            DeleteAction::Ask
        }
    }
}

/// No env was found or selected.
#[derive(Debug)]
pub struct NoEnvSelected;

/// The names of the selected envs: the current env when it is known, then
/// the names given.
pub open spec fn selected_names(settings: SettingsModel, names: Seq<Seq<char>>) -> Seq<Seq<char>> {
    match settings.env {
        Some(e) => seq![e] + names,
        None => names,
    }
}

/// The env `e` has a name, and it is one of `names`.
pub open spec fn is_selected(e: EnvModel, names: Seq<Seq<char>>) -> bool {
    match env_name_spec(e.file) {
        Ok(n) => names.contains(n),
        Err(_) => false,
    }
}

/// The envs of `envs` that are selected (by the current env of `settings`
/// or by `names`), in order; an error when there is none.
pub fn selected_envs(settings: &Settings, names: Vec<String>, envs: Vec<Env>) -> (r: Result<
    Vec<Env>,
    NoEnvSelected,
>)
    ensures
        ({
            let sel = selected_names(settings@, names@.map_values(|n: String| n@));
            let kept = envs@.map_values(|e: Env| e@).filter(|e: EnvModel| is_selected(e, sel));
            match r {
                Ok(v) => kept.len() > 0 && v@.map_values(|e: Env| e@) == kept,
                Err(_) => kept.len() == 0,
            }
        }),
{
    let ghost given = names@.map_values(|n: String| n@);
    let mut selected: Vec<String> = Vec::new();
    if let Ok(env) = settings.env() {
        selected.push(env.clone());
    }
    let ghost first = selected@.map_values(|n: String| n@);
    assert(first =~= match settings@.env {
        Some(e) => seq![e],
        None => Seq::<Seq<char>>::empty(),
    });
    let mut names = names;
    let ghost before = selected@;
    let ghost others = names@;
    selected.append(&mut names);
    let ghost sel = selected@.map_values(|n: String| n@);
    assert(sel =~= first + given) by {
        assert(selected@ == before + others);
    }
    let ghost es = envs@.map_values(|e: Env| e@);
    let ghost keep = |e: EnvModel| is_selected(e, sel);
    let mut kept: Vec<Env> = Vec::new();
    let mut i: usize = 0;
    while i < envs.len()
        invariant
            i <= envs@.len() == es.len(),
            es == envs@.map_values(|e: Env| e@),
            sel == selected@.map_values(|n: String| n@),
            keep == (|e: EnvModel| is_selected(e, sel)),
            kept@.map_values(|e: Env| e@) == es.take(i as int).filter(keep),
        decreases envs@.len() - i,
    {
        let env = &envs[i];
        let mut found = false;
        if let Ok(name) = env.name() {
            let mut j: usize = 0;
            while j < selected.len()
                invariant
                    j <= selected@.len() == sel.len(),
                    sel == selected@.map_values(|n: String| n@),
                    found <==> exists|k: int| 0 <= k < j && sel[k] == name@,
                decreases selected@.len() - j,
            {
                if selected[j].eq(&name) {
                    found = true;
                }
                assert(sel[j as int] == selected@[j as int]@);
                j = j + 1;
            }
            assert(found == sel.contains(name@));
        }
        assert(found == keep(env@));
        let ghost old_kept = kept@;
        proof {
            reveal(Seq::filter);
            assert(es.take(i + 1).drop_last() =~= es.take(i as int));
            assert(es.take(i + 1).last() == env@);
        }
        if found {
            kept.push(env.clone());
            assert(kept@.map_values(|e: Env| e@) =~= old_kept.map_values(|e: Env| e@).push(env@));
        }
        i = i + 1;
    }
    assert(es.take(i as int) =~= es);
    if kept.len() == 0 {
        Err(NoEnvSelected)
    } else {
        Ok(kept)
    }
}

/// The names of `envs`, in order, or the error of the first one that has
/// none.
pub open spec fn env_names(envs: Seq<EnvModel>) -> Result<Seq<Seq<char>>, EnvErrorModel>
    decreases envs.len(),
{
    if envs.len() == 0 {
        Ok(seq![])
    } else {
        match env_names(envs.drop_last()) {
            Err(e) => Err(e),
            Ok(names) => match env_name_spec(envs.last().file) {
                Ok(n) => Ok(names.push(n)),
                Err(e) => Err(e),
            },
        }
    }
}

/// The value of the variable `name` in each of `envs` that has one, in order.
pub open spec fn values_in(envs: Seq<EnvModel>, name: Seq<char>) -> Seq<Seq<char>>
    decreases envs.len(),
{
    if envs.len() == 0 {
        seq![]
    } else {
        values_in(envs.drop_last(), name) + match find_var(envs.last().entries, name) {
            Some(v) => seq![v.value],
            None => Seq::<Seq<char>>::empty(),
        }
    }
}

/// The table of the variables of `envs`: a title row (an empty cell, then
/// the name of each env), then a row for each variable of the first env: its
/// name, then its value in each env that has it.
pub open spec fn env_matrix_spec(envs: Seq<EnvModel>) -> Result<Seq<Seq<Seq<char>>>, EnvErrorModel> {
    match env_names(envs) {
        Err(e) => Err(e),
        Ok(names) => Ok(
            seq![seq![Seq::<char>::empty()] + names] + env_vars_of(envs[0].entries).map_values(
                |v: VarModel| seq![v.name] + values_in(envs, v.name),
            ),
        ),
    }
}

/// The text of each cell of a table.
pub open spec fn table_model(rows: Seq<Vec<String>>) -> Seq<Seq<Seq<char>>> {
    rows.map_values(|row: Vec<String>| row@.map_values(|c: String| c@))
}

/// The row of the variable `name`: its name, then its value in each env
/// that has it.
fn value_row(envs: &Vec<Env>, name: &String) -> (r: Vec<String>)
    ensures
        r@.map_values(|c: String| c@) == seq![name@] + values_in(
            envs@.map_values(|e: Env| e@),
            name@,
        ),
{
    let ghost es = envs@.map_values(|e: Env| e@);
    let mut row: Vec<String> = Vec::new();
    row.push(name.clone());
    let mut i: usize = 0;
    while i < envs.len()
        invariant
            i <= envs@.len() == es.len(),
            es == envs@.map_values(|e: Env| e@),
            row@.map_values(|c: String| c@) == seq![name@] + values_in(es.take(i as int), name@),
        decreases envs@.len() - i,
    {
        let ghost before = row@;
        assert(es.take(i + 1).drop_last() =~= es.take(i as int));
        assert(es.take(i + 1).last() == envs@[i as int]@);
        match envs[i].get(name.as_str()) {
            Ok(var) => {
                row.push(var.value().clone());
                assert(row@.map_values(|c: String| c@) =~= before.map_values(|c: String| c@).push(
                    var@.value,
                ));
            },
            Err(_) => {},
        }
        i = i + 1;
    }
    assert(es.take(i as int) =~= es);
    row
}

/// The table that the `envs` command shows for `envs` (see
/// [`env_matrix_spec`]); the error of the first env that has no name.
pub fn env_matrix(envs: &Vec<Env>) -> (r: Result<Vec<Vec<String>>, EnvError>)
    requires
        envs@.len() > 0,
    ensures
        match (r, env_matrix_spec(envs@.map_values(|e: Env| e@))) {
            (Ok(rows), Ok(m)) => table_model(rows@) == m,
            (Err(e), Err(m)) => e@ == m,
            _ => false,
        },
{
    let ghost es = envs@.map_values(|e: Env| e@);
    let mut title: Vec<String> = Vec::new();
    title.push(String::new());
    let mut i: usize = 0;
    while i < envs.len()
        invariant
            i <= envs@.len() == es.len(),
            es == envs@.map_values(|e: Env| e@),
            env_names(es.take(i as int)) matches Ok(ns) && title@.map_values(|c: String| c@)
                == seq![Seq::<char>::empty()] + ns,
        decreases envs@.len() - i,
    {
        let ghost before = title@;
        assert(es.take(i + 1).drop_last() =~= es.take(i as int));
        assert(es.take(i + 1).last() == envs@[i as int]@);
        let name = match envs[i].name() {
            Ok(name) => name,
            Err(e) => {
                proof {
                    lemma_env_names_prefix_err(es, i as int + 1);
                }
                return Err(e);
            },
        };
        let ghost n = name@;
        title.push(name);
        assert(title@.map_values(|c: String| c@) =~= before.map_values(|c: String| c@).push(n));
        i = i + 1;
    }
    let ghost names = env_names(es)->Ok_0;
    assert(es.take(i as int) =~= es);
    let mut rows: Vec<Vec<String>> = Vec::new();
    rows.push(title);
    let first = &envs[0];
    let entries = first.entries();
    let ghost first_es = envs@[0]@.entries;
    let ghost f = |v: VarModel| seq![v.name] + values_in(es, v.name);
    let mut k: usize = 0;
    assert(first_es.skip(0) =~= first_es);
    while k < entries.len()
        invariant
            k <= entries@.len() == first_es.len(),
            first_es == envs@[0]@.entries,
            entries_model(entries@) == first_es,
            es == envs@.map_values(|e: Env| e@),
            f == (|v: VarModel| seq![v.name] + values_in(es, v.name)),
            table_model(rows@) + env_vars_of(first_es.skip(k as int)).map_values(f) == seq![
                seq![Seq::<char>::empty()] + names,
            ] + env_vars_of(first_es).map_values(f),
        decreases entries@.len() - k,
    {
        proof {
            lemma_env_vars_of_step(first_es, k as int);
        }
        assert(first_es[k as int] == entries@[k as int]@);
        if let Entry::Var(var) = &entries[k] {
            let ghost tail = env_vars_of(first_es.skip(k + 1));
            let ghost before = table_model(rows@);
            let row = value_row(envs, var.name());
            let ghost row_model = row@.map_values(|c: String| c@);
            rows.push(row);
            assert(table_model(rows@) =~= before.push(row_model));
            assert((seq![var@] + tail).map_values(f) =~= seq![f(var@)] + tail.map_values(f));
        }
        k = k + 1;
    }
    assert(first_es.skip(k as int) =~= Seq::<EntryModel>::empty());
    assert(table_model(rows@) + Seq::<Seq<Seq<char>>>::empty() =~= table_model(rows@));
    Ok(rows)
}

proof fn lemma_env_names_prefix_err(es: Seq<EnvModel>, n: int)
    requires
        1 <= n <= es.len(),
        env_names(es.take(n)) is Err,
    ensures
        env_names(es) == env_names(es.take(n)),
    decreases es.len() - n,
{
    if n < es.len() {
        assert(es.take(n + 1).drop_last() =~= es.take(n));
        lemma_env_names_prefix_err(es, n + 1);
    } else {
        assert(es.take(n) =~= es);
    }
}

/// A cell of a table: its text and the number of columns it spans.
#[derive(Debug, PartialEq, Eq)]
pub struct MatrixCell {
    pub text: String,
    pub col_span: usize,
}

/// Mathematical model of a [`MatrixCell`].
pub struct CellModel {
    pub text: Seq<char>,
    pub col_span: nat,
}

/// The model of a row of cells.
pub open spec fn row_model(row: Seq<MatrixCell>) -> Seq<CellModel> {
    row.map_values(|c: MatrixCell| CellModel { text: c.text@, col_span: c.col_span as nat })
}

/// The model of a table of cells.
pub open spec fn cells_model(rows: Seq<Vec<MatrixCell>>) -> Seq<Seq<CellModel>> {
    rows.map_values(|row: Vec<MatrixCell>| row_model(row@))
}

/// A cell of one column.
pub open spec fn cell(text: Seq<char>) -> CellModel {
    CellModel { text, col_span: 1 }
}

/// The value of the variable `name` in the env `e`.
pub open spec fn value_of(e: EnvModel, name: Seq<char>) -> Seq<char> {
    find_var(e.entries, name)->Some_0.value
}

/// A cell with the value of the variable `name` in each of `envs`.
pub open spec fn value_cells(envs: Seq<EnvModel>, name: Seq<char>) -> Seq<CellModel> {
    envs.map_values(|e: EnvModel| cell(value_of(e, name)))
}

/// The env `e` has each variable that the variable `ev` of the run file shows.
pub open spec fn has_vars_of(e: EnvModel, ev: EnvVarModel) -> bool {
    match ev.value {
        EnvValueModel::Var(_) => find_var(e.entries, ev.var) is Some,
        EnvValueModel::ArrayVar(_, vs) => forall|j: int|
            0 <= j < vs.len() ==> find_var(e.entries, #[trigger] vs[j].name) is Some,
    }
}

/// The rows of the variable `ev` of the run file: for a variable, its
/// script name, its env name, then its value in each env; for an array
/// variable, its script name and its env name with its pattern (spanning
/// the other columns), then a row for each variable it gathers: an empty
/// cell, its name, and its value in each env.
pub open spec fn var_rows(envs: Seq<EnvModel>, ev: EnvVarModel) -> Seq<Seq<CellModel>> {
    match ev.value {
        EnvValueModel::Var(_) => seq![
            seq![cell(snake_case_of(ev.var)), cell(shouty_snake_case_of(ev.var))] + value_cells(
                envs,
                ev.var,
            ),
        ],
        EnvValueModel::ArrayVar(a, vs) => seq![
            seq![
                cell(snake_case_of(ev.var)),
                CellModel {
                    text: shouty_snake_case_of(ev.var) + " ("@ + a.pattern + ")"@,
                    col_span: envs.len() + 1,
                },
            ],
        ] + vs.map_values(
            |v: VarModel| seq![cell(Seq::<char>::empty()), cell(v.name)] + value_cells(envs, v.name),
        ),
    }
}

/// The rows of each of `evs`, in order.
pub open spec fn all_var_rows(envs: Seq<EnvModel>, evs: Seq<EnvVarModel>) -> Seq<Seq<CellModel>>
    decreases evs.len(),
{
    if evs.len() == 0 {
        seq![]
    } else {
        all_var_rows(envs, evs.drop_last()) + var_rows(envs, evs.last())
    }
}

/// The table that the `var` command shows: a title row (an empty cell over
/// two columns, then the name of each env), then the rows of each variable
/// of the run file (see [`var_rows`]).
pub open spec fn vars_matrix_spec(
    envs: Seq<EnvModel>,
    names: Seq<Seq<char>>,
    evs: Seq<EnvVarModel>,
) -> Seq<Seq<CellModel>> {
    seq![
        seq![CellModel { text: Seq::<char>::empty(), col_span: 2 }] + names.map_values(
            |n: Seq<char>| cell(n),
        ),
    ] + all_var_rows(envs, evs)
}

/// A cell of one column with `text`.
fn one_cell(text: String) -> (r: MatrixCell)
    ensures
        r.text@ == text@,
        r.col_span == 1,
{
    MatrixCell { text, col_span: 1 }
}

/// A cell with the value of the variable `name` in each of `envs`.
fn value_cell_row(envs: &Vec<Env>, name: &String, row: &mut Vec<MatrixCell>)
    requires
        forall|i: int| 0 <= i < envs@.len() ==> find_var(#[trigger] envs@[i]@.entries, name@) is Some,
    ensures
        row_model(final(row)@) == row_model(old(row)@) + value_cells(
            envs@.map_values(|e: Env| e@),
            name@,
        ),
{
    let ghost es = envs@.map_values(|e: Env| e@);
    let ghost start = row_model(row@);
    let mut i: usize = 0;
    while i < envs.len()
        invariant
            i <= envs@.len() == es.len(),
            es == envs@.map_values(|e: Env| e@),
            forall|i: int| 0 <= i < envs@.len() ==> find_var(#[trigger] envs@[i]@.entries, name@) is Some,
            row_model(row@) == start + value_cells(es.take(i as int), name@),
        decreases envs@.len() - i,
    {
        let ghost before = row@;
        assert(es[i as int] == envs@[i as int]@);
        let var = match envs[i].get(name.as_str()) {
            Ok(var) => var,
            Err(_) => {
                assert(false);
                return;
            },
        };
        row.push(one_cell(var.value().clone()));
        assert(row_model(row@) =~= row_model(before).push(cell(value_of(es[i as int], name@))));
        assert(value_cells(es.take(i + 1), name@) =~= value_cells(es.take(i as int), name@).push(
            cell(value_of(es[i as int], name@)),
        ));
        i = i + 1;
    }
    assert(es.take(i as int) =~= es);
}

/// The table that the `var` command shows for `envs` and the variables
/// `env_vars` of the run file (see [`vars_matrix_spec`]). Every env must
/// have a name and each variable that the table shows.
pub fn vars_matrix(envs: &Vec<Env>, env_vars: &Vec<EnvVar>) -> (r: Vec<Vec<MatrixCell>>)
    requires
        envs@.len() < usize::MAX,
        env_names(envs@.map_values(|e: Env| e@)) is Ok,
        forall|i: int, k: int|
            0 <= i < envs@.len() && 0 <= k < env_vars@.len() ==> has_vars_of(
                #[trigger] envs@[i]@,
                #[trigger] env_vars@[k]@,
            ),
    ensures
        cells_model(r@) == vars_matrix_spec(
            envs@.map_values(|e: Env| e@),
            env_names(envs@.map_values(|e: Env| e@))->Ok_0,
            env_vars@.map_values(|v: EnvVar| v@),
        ),
{
    let ghost es = envs@.map_values(|e: Env| e@);
    let ghost names = env_names(es)->Ok_0;
    let ghost evs = env_vars@.map_values(|v: EnvVar| v@);
    let mut title: Vec<MatrixCell> = Vec::new();
    title.push(MatrixCell { text: String::new(), col_span: 2 });
    let mut i: usize = 0;
    while i < envs.len()
        invariant
            i <= envs@.len() == es.len(),
            es == envs@.map_values(|e: Env| e@),
            env_names(es) is Ok,
            env_names(es.take(i as int)) matches Ok(ns) && row_model(title@) == seq![
                CellModel { text: Seq::<char>::empty(), col_span: 2 },
            ] + ns.map_values(|n: Seq<char>| cell(n)),
        decreases envs@.len() - i,
    {
        let ghost before = title@;
        assert(es.take(i + 1).drop_last() =~= es.take(i as int));
        assert(es.take(i + 1).last() == envs@[i as int]@);
        let name = match envs[i].name() {
            Ok(name) => name,
            Err(_) => {
                proof {
                    lemma_env_names_prefix_err(es, i as int + 1);
                }
                assert(false);
                return Vec::new();
            },
        };
        let ghost n = name@;
        let ghost ns = env_names(es.take(i as int))->Ok_0;
        title.push(one_cell(name));
        assert(row_model(title@) =~= row_model(before).push(cell(n)));
        assert(ns.push(n).map_values(|n: Seq<char>| cell(n)) =~= ns.map_values(|n: Seq<char>| cell(n)).push(cell(n)));
        i = i + 1;
    }
    assert(es.take(i as int) =~= es);
    let mut rows: Vec<Vec<MatrixCell>> = Vec::new();
    rows.push(title);
    let mut k: usize = 0;
    while k < env_vars.len()
        invariant
            k <= env_vars@.len() == evs.len(),
            envs@.len() < usize::MAX,
            es == envs@.map_values(|e: Env| e@),
            evs == env_vars@.map_values(|v: EnvVar| v@),
            forall|i: int, k: int|
                0 <= i < envs@.len() && 0 <= k < env_vars@.len() ==> has_vars_of(
                    #[trigger] envs@[i]@,
                    #[trigger] env_vars@[k]@,
                ),
            cells_model(rows@) == vars_matrix_spec(es, names, evs.take(k as int)),
        decreases env_vars@.len() - k,
    {
        let env_var = &env_vars[k];
        let ghost ev = env_var@;
        let ghost before = cells_model(rows@);
        assert(evs.take(k + 1).drop_last() =~= evs.take(k as int));
        assert(evs.take(k + 1).last() == ev);
        let var_name = env_var.var();
        match env_var.env_value() {
            EnvValue::Var(_) => {
                let mut line: Vec<MatrixCell> = Vec::new();
                line.push(one_cell(var_name.to_var()));
                line.push(one_cell(var_name.to_env_var()));
                assert(row_model(line@) =~= seq![
                    cell(snake_case_of(var_name@)),
                    cell(shouty_snake_case_of(var_name@)),
                ]);
                proof {
                    assert forall|i: int| 0 <= i < envs@.len() implies find_var(
                        #[trigger] envs@[i]@.entries,
                        var_name@,
                    ) is Some by {
                        assert(has_vars_of(envs@[i]@, env_vars@[k as int]@));
                    }
                }
                let name = var_name.to_string();
                value_cell_row(envs, &name, &mut line);
                let ghost line_model = row_model(line@);
                rows.push(line);
                assert(cells_model(rows@) =~= before.push(line_model));
                assert(cells_model(rows@) =~= before + var_rows(es, ev));
            },
            EnvValue::ArrayVar((array_var, values)) => {
                let mut head: Vec<MatrixCell> = Vec::new();
                head.push(one_cell(var_name.to_var()));
                let mut text = var_name.to_env_var();
                text.append(" (");
                text.append(array_var.pattern().as_str());
                text.append(")");
                head.push(MatrixCell { text, col_span: envs.len() + 1 });
                let ghost head_model = row_model(head@);
                rows.push(head);
                assert(cells_model(rows@) =~= before.push(head_model));
                let mut j: usize = 0;
                while j < values.len()
                    invariant
                        j <= values@.len(),
                        es == envs@.map_values(|e: Env| e@),
                        forall|i: int|
                            0 <= i < envs@.len() ==> has_vars_of(#[trigger] envs@[i]@, ev),
                        ev.value == EnvValueModel::ArrayVar(array_var@, values@.map_values(|v: crate::env_file::Var| v@)),
                        cells_model(rows@) == before.push(head_model) + values@.take(j as int).map_values(
                            |v: crate::env_file::Var| seq![cell(Seq::<char>::empty()), cell(v@.name)] + value_cells(es, v@.name),
                        ),
                    decreases values@.len() - j,
                {
                    let var = &values[j];
                    let ghost rows_before = cells_model(rows@);
                    let mut line: Vec<MatrixCell> = Vec::new();
                    line.push(one_cell(String::new()));
                    line.push(one_cell(var.name().clone()));
                    assert(row_model(line@) =~= seq![cell(Seq::<char>::empty()), cell(var@.name)]);
                    proof {
                        assert forall|i: int| 0 <= i < envs@.len() implies find_var(
                            #[trigger] envs@[i]@.entries,
                            var@.name,
                        ) is Some by {
                            assert(has_vars_of(envs@[i]@, ev));
                            assert(values@.map_values(|v: crate::env_file::Var| v@)[j as int] == var@);
                        }
                    }
                    value_cell_row(envs, var.name(), &mut line);
                    let ghost line_model = row_model(line@);
                    rows.push(line);
                    assert(cells_model(rows@) =~= rows_before.push(line_model));
                    proof {
                        let g = |v: crate::env_file::Var| seq![cell(Seq::<char>::empty()), cell(v@.name)] + value_cells(es, v@.name);
                        assert(values@.take(j + 1) =~= values@.take(j as int).push(*var));
                        assert(values@.take(j + 1).map_values(g) =~= values@.take(j as int).map_values(g).push(g(*var)));
                        assert(line_model == g(*var));
                    }
                    j = j + 1;
                }
                assert(values@.take(j as int) =~= values@);
                proof {
                    let g = |v: crate::env_file::Var| seq![cell(Seq::<char>::empty()), cell(v@.name)] + value_cells(es, v@.name);
                    let h = |v: VarModel| seq![cell(Seq::<char>::empty()), cell(v.name)] + value_cells(es, v.name);
                    assert(values@.map_values(g) =~= values@.map_values(|v: crate::env_file::Var| v@).map_values(h));
                    assert(head_model == seq![
                        cell(snake_case_of(ev.var)),
                        CellModel {
                            text: shouty_snake_case_of(ev.var) + " ("@ + array_var@.pattern + ")"@,
                            col_span: es.len() + 1,
                        },
                    ]);
                    assert(cells_model(rows@) =~= before + var_rows(es, ev));
                }
            },
        }
        proof {
            assert(all_var_rows(es, evs.take(k + 1)) == all_var_rows(es, evs.take(k as int)) + var_rows(es, ev));
            assert(vars_matrix_spec(es, names, evs.take(k + 1)) =~= vars_matrix_spec(es, names, evs.take(k as int)) + var_rows(es, ev));
        }
        k = k + 1;
    }
    assert(evs.take(k as int) =~= evs);
    rows
}

/// What the `vars` command shows for the variable `var_name` in the env
/// `e` of the setup `setup_name`: the env's own value of it; else, for
/// `short_env`, the name of the env, and for `short_setup`, the name of the
/// setup; else nothing. An error when the env has no name.
pub open spec fn var_cell_spec(e: EnvModel, var_name: Seq<char>, setup_name: Seq<char>) -> Result<
    Option<Seq<char>>,
    EnvErrorModel,
> {
    match env_name_spec(e.file) {
        Err(m) => Err(m),
        Ok(env_name) => Ok(
            match find_var(e.entries, var_name) {
                Some(v) => Some(v.value),
                None => if var_name == ENV_ENVIRONMENT_VAR@ {
                    Some(env_name)
                } else if var_name == ENV_SETUP_VAR@ {
                    Some(setup_name)
                } else {
                    None
                },
            },
        ),
    }
}

/// The cell of the `vars` table for the variable `var_name` in `env`, of
/// the setup `setup_name` (see [`var_cell_spec`]).
pub fn var_cell(env: &Env, var_name: &String, setup_name: &String) -> (r: Result<
    Option<String>,
    EnvError,
>)
    ensures
        match (r, var_cell_spec(env@, var_name@, setup_name@)) {
            (Ok(Some(v)), Ok(Some(m))) => v@ == m,
            (Ok(None), Ok(None)) => true,
            (Err(e), Err(m)) => e@ == m,
            _ => false,
        },
{
    let env_name = env.name()?;
    match env.get(var_name.as_str()) {
        Ok(var) => Ok(Some(var.value().clone())),
        Err(_) => {
            if var_name.eq(&ENV_ENVIRONMENT_VAR.to_owned()) {
                Ok(Some(env_name))
            } else if var_name.eq(&ENV_SETUP_VAR.to_owned()) {
                Ok(Some(setup_name.clone()))
            } else {
                Ok(None)
            }
        },
    }
}

/// The column of the current env among the env names `names`: the last
/// one named `current`, or the first column when none is.
pub open spec fn current_column(current: Option<Seq<char>>, names: Seq<Seq<char>>) -> nat
    decreases names.len(),
{
    if names.len() == 0 {
        0
    } else if current == Some(names.last()) {
        (names.len() - 1) as nat
    } else {
        current_column(current, names.drop_last())
    }
}

/// The column of the `vars` table that is marked as the current env (see
/// [`current_column`]); the error of the first env that has no name.
pub fn current_env_column(settings: &Settings, envs: &Vec<Env>) -> (r: Result<usize, EnvError>)
    ensures
        match (r, env_names(envs@.map_values(|e: Env| e@))) {
            (Ok(i), Ok(names)) => i == current_column(settings@.env, names),
            (Err(e), Err(m)) => e@ == m,
            _ => false,
        },
{
    let ghost es = envs@.map_values(|e: Env| e@);
    let mut column: usize = 0;
    let mut i: usize = 0;
    while i < envs.len()
        invariant
            i <= envs@.len() == es.len(),
            es == envs@.map_values(|e: Env| e@),
            env_names(es.take(i as int)) matches Ok(ns) && ns.len() == i && column
                == current_column(settings@.env, ns),
        decreases envs@.len() - i,
    {
        assert(es.take(i + 1).drop_last() =~= es.take(i as int));
        assert(es.take(i + 1).last() == envs@[i as int]@);
        let ghost ns = env_names(es.take(i as int))->Ok_0;
        let name = match envs[i].name() {
            Ok(name) => name,
            Err(e) => {
                proof {
                    lemma_env_names_prefix_err(es, i as int + 1);
                }
                return Err(e);
            },
        };
        if let Ok(current) = settings.env() {
            if current.eq(&name) {
                column = i;
            }
        }
        assert(ns.push(name@).drop_last() =~= ns);
        assert(env_names(es.take(i + 1)) == Ok::<Seq<Seq<char>>, EnvErrorModel>(ns.push(name@)));
        assert(column == current_column(settings@.env, ns.push(name@)));
        i = i + 1;
    }
    assert(es.take(i as int) =~= es);
    Ok(column)
}

} // verus!
