use vstd::prelude::*;

use crate::case::{shouty_snake_case_of, snake_case_of};
use crate::cfg::{ArrayVar, ArrayVarModel, ArrayVars, VarCase, VarName, Vars};
use crate::env_file::VarModel;
use crate::run_file::var::{array_item_text, array_value_text};
use crate::run_file::RunFileError;

verus! {

/// The first line of a `sh` run script.
pub const SHEBANG_SH: &'static str = "#!/bin/sh";

/// The first line of a `bash` run script.
pub const SHEBANG_BASH: &'static str = "#!/bin/bash";

/// What a `sh` script generates in place of its variable declarations.
pub const GENERATED_SH_SCRIPT: &'static str = "#generated_sh_script";

/// A kind of script that can write the declarations of the variables of a
/// setup.
pub trait Generate {
    fn generate(&self, array_vars: &ArrayVars, vars: &Vars) -> Result<String, RunFileError>;
}

/// A `sh` script, with its shebang.
#[derive(Debug)]
pub struct ShScript(String);

/// A `bash` script, with its shebang.
#[derive(Debug)]
pub struct BashScript(String);

impl View for ShScript {
    type V = Seq<char>;

    closed spec fn view(&self) -> Seq<char> {
        self.0@
    }
}

impl View for BashScript {
    type V = Seq<char>;

    closed spec fn view(&self) -> Seq<char> {
        self.0@
    }
}

impl Default for ShScript {
    fn default() -> (r: Self)
        ensures
            r@ == SHEBANG_SH@,
    {
        ShScript(SHEBANG_SH.to_owned())
    }
}

impl Default for BashScript {
    fn default() -> (r: Self)
        ensures
            r@ == SHEBANG_BASH@,
    {
        BashScript(SHEBANG_BASH.to_owned())
    }
}

/// The line that declares the array variable `name` from its env variable.
pub open spec fn declare_array_line(name: Seq<char>) -> Seq<char> {
    "declare -A "@ + snake_case_of(name) + " && eval "@ + snake_case_of(name) + "=($"@
        + shouty_snake_case_of(name) + ")"@ + "\n"@
}

/// The line that declares the read-only variable `name` from its env variable.
pub open spec fn declare_var_line(name: Seq<char>) -> Seq<char> {
    "declare -r "@ + snake_case_of(name) + "=$"@ + shouty_snake_case_of(name) + "\n"@
}

/// The line that prints the declaration of the variable `name`.
pub open spec fn print_var_line(name: Seq<char>) -> Seq<char> {
    "declare -p "@ + snake_case_of(name) + "\n"@
}

/// The three kinds of lines that a `bash` script writes for a variable.
#[derive(Clone, Copy, Debug)]
pub enum LineKind {
    DeclareArray,
    DeclareVar,
    Print,
}

/// The line of kind `k` for the variable `name`.
pub open spec fn line_text(k: LineKind, name: Seq<char>) -> Seq<char> {
    match k {
        LineKind::DeclareArray => declare_array_line(name),
        LineKind::DeclareVar => declare_var_line(name),
        LineKind::Print => print_var_line(name),
    }
}

/// The line of kind `k` of each of `names`, in order.
pub open spec fn lines_of(names: Seq<Seq<char>>, k: LineKind) -> Seq<char>
    decreases names.len(),
{
    if names.len() == 0 {
        seq![]
    } else {
        lines_of(names.drop_last(), k) + line_text(k, names.last())
    }
}

/// The names of the array variables `avs`.
pub open spec fn array_var_names(avs: Seq<ArrayVarModel>) -> Seq<Seq<char>> {
    avs.map_values(|a: ArrayVarModel| a.var)
}

/// The text of a `bash` script with the shebang `shebang`: the shebang, a
/// declaration for each array variable then for each variable, an empty line,
/// and a line that prints each of them, in the same order.
pub open spec fn bash_script_text(
    shebang: Seq<char>,
    avs: Seq<ArrayVarModel>,
    vars: Seq<Seq<char>>,
) -> Seq<char> {
    shebang + "\n"@ + lines_of(array_var_names(avs), LineKind::DeclareArray) + lines_of(
        vars,
        LineKind::DeclareVar,
    ) + "\n"@ + lines_of(array_var_names(avs), LineKind::Print) + lines_of(vars, LineKind::Print)
}

proof fn lemma_lines_of_push(names: Seq<Seq<char>>, i: int, k: LineKind)
    requires
        0 <= i < names.len(),
    ensures
        lines_of(names.take(i + 1), k) == lines_of(names.take(i), k) + line_text(k, names[i]),
{
    assert(names.take(i + 1).drop_last() =~= names.take(i));
}

/// Appends the line of kind `k` of each name of `names` to `content`.
fn append_lines(content: &mut String, names: &Vec<VarName>, k: LineKind)
    ensures
        final(content)@ == old(content)@ + lines_of(names@.map_values(|v: VarName| v@), k),
{
    let ghost start = content@;
    let ghost ns = names@.map_values(|v: VarName| v@);
    let mut i: usize = 0;
    while i < names.len()
        invariant
            i <= names@.len() == ns.len(),
            ns == names@.map_values(|v: VarName| v@),
            content@ == start + lines_of(ns.take(i as int), k),
        decreases names@.len() - i,
    {
        let var = &names[i];
        let snake = var.to_var();
        match k {
            LineKind::DeclareArray => {
                let shouty = var.to_env_var();
                content.append("declare -A ");
                content.append(snake.as_str());
                content.append(" && eval ");
                content.append(snake.as_str());
                content.append("=($");
                content.append(shouty.as_str());
                content.append(")");
            },
            LineKind::DeclareVar => {
                let shouty = var.to_env_var();
                content.append("declare -r ");
                content.append(snake.as_str());
                content.append("=$");
                content.append(shouty.as_str());
            },
            LineKind::Print => {
                content.append("declare -p ");
                content.append(snake.as_str());
            },
        }
        content.append("\n");
        proof {
            lemma_lines_of_push(ns, i as int, k);
            assert(ns[i as int] == var@);
        }
        i = i + 1;
    }
    assert(ns.take(i as int) =~= ns);
}

/// The names of the array variables of `array_vars`, in order.
fn array_var_name_list(array_vars: &ArrayVars) -> (r: Vec<VarName>)
    ensures
        r@.map_values(|v: VarName| v@) == array_var_names(array_vars@),
{
    let avs = array_vars.inner();
    let mut names: Vec<VarName> = Vec::new();
    let mut i: usize = 0;
    while i < avs.len()
        invariant
            i <= avs@.len(),
            avs@.map_values(|a: ArrayVar| a@) == array_vars@,
            names@.map_values(|v: VarName| v@) == array_var_names(array_vars@.take(i as int)),
        decreases avs@.len() - i,
    {
        let ghost before = names@;
        names.push(avs[i].var().clone());
        proof {
            assert(avs@[i as int]@ == array_vars@[i as int]);
            assert(names@.map_values(|v: VarName| v@) =~= before.map_values(|v: VarName| v@).push(
                array_vars@[i as int].var,
            ));
            assert(array_vars@.take(i + 1) =~= array_vars@.take(i as int).push(
                array_vars@[i as int],
            ));
            assert(array_var_names(array_vars@.take(i + 1)) =~= array_var_names(
                array_vars@.take(i as int),
            ).push(array_vars@[i as int].var));
        }
        i = i + 1;
    }
    assert(array_vars@.take(i as int) =~= array_vars@);
    names
}

impl Generate for ShScript {
    /// A `sh` script declares nothing: it is a fixed line.
    fn generate(&self, array_vars: &ArrayVars, vars: &Vars) -> (r: Result<String, RunFileError>)
        ensures
            r matches Ok(s) && s@ == GENERATED_SH_SCRIPT@,
    {
        Ok(GENERATED_SH_SCRIPT.to_owned())
    }
}

impl Generate for BashScript {
    fn generate(&self, array_vars: &ArrayVars, vars: &Vars) -> (r: Result<String, RunFileError>)
        ensures
            r matches Ok(s) && s@ == bash_script_text(self@, array_vars@, vars@),
    {
        let array_names = array_var_name_list(array_vars);
        let var_names = vars.inner();
        let mut content = self.0.clone();
        content.append("\n");
        append_lines(&mut content, &array_names, LineKind::DeclareArray);
        append_lines(&mut content, var_names, LineKind::DeclareVar);
        content.append("\n");
        append_lines(&mut content, &array_names, LineKind::Print);
        append_lines(&mut content, var_names, LineKind::Print);
        Ok(content)
    }
}

/// The kind of a run file.
#[derive(Debug)]
pub enum Kind {
    Sh(ShScript),
    Bash(BashScript),
}

/// Mathematical model of a [`Kind`]: which kind, with its shebang.
pub enum KindModel {
    Sh(Seq<char>),
    Bash(Seq<char>),
}

impl View for Kind {
    type V = KindModel;

    open spec fn view(&self) -> KindModel {
        match self {
            Kind::Sh(s) => KindModel::Sh(s@),
            Kind::Bash(b) => KindModel::Bash(b@),
        }
    }
}

/// The text that a run file of kind `k` generates for `avs` and `vars`.
pub open spec fn script_text(k: KindModel, avs: Seq<ArrayVarModel>, vars: Seq<Seq<char>>) -> Seq<
    char,
> {
    match k {
        KindModel::Sh(_) => GENERATED_SH_SCRIPT@,
        KindModel::Bash(shebang) => bash_script_text(shebang, avs, vars),
    }
}

/// The kind named `name` (`sh` or `bash`), with its default shebang.
pub open spec fn kind_from_name(name: Seq<char>) -> Option<KindModel> {
    if name == "sh"@ {
        Some(KindModel::Sh(SHEBANG_SH@))
    } else if name == "bash"@ {
        Some(KindModel::Bash(SHEBANG_BASH@))
    } else {
        None
    }
}

impl Kind {
    /// The kind named `name`: `sh` or `bash`.
    pub fn from_name(name: &str) -> (r: Result<Kind, RunFileError>)
        ensures
            match (r, kind_from_name(name@)) {
                (Ok(k), Some(m)) => k@ == m,
                (Err(e), None) => e matches RunFileError::UnknownKind(n) && n@ == name@,
                _ => false,
            },
    {
        let s = name.to_owned();
        if s.eq(&"sh".to_owned()) {
            Ok(Kind::Sh(ShScript::default()))
        } else if s.eq(&"bash".to_owned()) {
            Ok(Kind::Bash(BashScript::default()))
        } else {
            Err(RunFileError::UnknownKind(s))
        }
    }
}

/// The array variable that a new `bash` setup declares: `all`, gathering
/// every env variable as `[Name]='value'` (names in CamelCase), separated by
/// spaces.
pub open spec fn bash_all_array_var() -> ArrayVarModel {
    ArrayVarModel {
        var: "all"@,
        pattern: ".*"@,
        case: VarCase::CamelCase,
        format: Some("[{key}]='{value}'"@),
        delimiter: Some(" "@),
    }
}

/// The texts `items` joined by single spaces.
pub open spec fn joined_by_spaces(items: Seq<Seq<char>>) -> Seq<char>
    decreases items.len(),
{
    if items.len() == 0 {
        seq![]
    } else if items.len() == 1 {
        items[0]
    } else {
        joined_by_spaces(items.drop_last()) + seq![' '] + items.last()
    }
}

/// The array variable that a new `bash` setup declares separates the
/// variables it gathers by a single space, so that `eval all=($ALL)` reads
/// one element per variable: its delimiter is one space, and its value is
/// the text of each gathered variable, joined by single spaces.
pub proof fn lemma_bash_all_joins_with_spaces(vs: Seq<VarModel>)
    ensures
        bash_all_array_var().delimiter == Some(seq![' ']),
        array_value_text(bash_all_array_var(), vs) == joined_by_spaces(
            vs.map_values(|v: VarModel| array_item_text(bash_all_array_var(), v)),
        ),
    decreases vs.len(),
{
    reveal_strlit(" ");
    let items = vs.map_values(|v: VarModel| array_item_text(bash_all_array_var(), v));
    if vs.len() > 1 {
        lemma_bash_all_joins_with_spaces(vs.drop_last());
        assert(items.drop_last() =~= vs.drop_last().map_values(
            |v: VarModel| array_item_text(bash_all_array_var(), v),
        ));
    }
}

impl Kind {
    /// The array variables that a new setup of this kind declares: `all`
    /// for `bash` (see [`bash_all_array_var`]), none for `sh`.
    pub fn default_array_vars(&self) -> (r: ArrayVars)
        ensures
            r@ == match self@ {
                KindModel::Sh(_) => Seq::<ArrayVarModel>::empty(),
                KindModel::Bash(_) => seq![bash_all_array_var()],
            },
            self@ is Bash ==> r@.len() == 1 && r@[0] == (ArrayVarModel {
                var: seq!['a', 'l', 'l'],
                pattern: seq!['.', '*'],
                case: VarCase::CamelCase,
                format: Some(
                    seq!['[', '{', 'k', 'e', 'y', '}', ']', '=', '\'', '{', 'v', 'a', 'l', 'u', 'e', '}', '\''],
                ),
                delimiter: Some(seq![' ']),
            }),
    {
        let mut array_vars = ArrayVars::new();
        match self {
            Kind::Sh(_) => {},
            Kind::Bash(_) => {
                let mut all = ArrayVar::new("all".to_owned(), ".*".to_owned());
                all.set_delimiter(" ".to_owned());
                all.set_format("[{key}]='{value}'".to_owned());
                all.set_case(VarCase::CamelCase);
                array_vars.add(all);
                assert(array_vars@ =~= seq![bash_all_array_var()]);
                proof {
                    reveal_strlit(" ");
                    reveal_strlit("all");
                    reveal_strlit(".*");
                    reveal_strlit("[{key}]='{value}'");
                    assert("all"@ =~= seq!['a', 'l', 'l']);
                    assert(".*"@ =~= seq!['.', '*']);
                    assert("[{key}]='{value}'"@ =~= seq![
                        '[', '{', 'k', 'e', 'y', '}', ']', '=', '\'', '{', 'v', 'a', 'l', 'u', 'e', '}', '\'',
                    ]);
                    assert(" "@ =~= seq![' ']);
                }
            },
        }
        array_vars
    }
}

impl Generate for Kind {
    fn generate(&self, array_vars: &ArrayVars, vars: &Vars) -> (r: Result<String, RunFileError>)
        ensures
            r matches Ok(s) && s@ == script_text(self@, array_vars@, vars@),
    {
        match self {
            Kind::Bash(bash) => bash.generate(array_vars, vars),
            Kind::Sh(sh) => sh.generate(array_vars, vars),
        }
    }
}

/// A run file: where it is to be written, its kind and its content.
pub struct File {
    path: String,
    kind: Kind,
    content: String,
}

/// Mathematical model of a [`File`].
pub struct FileModel {
    pub path: Seq<char>,
    pub kind: KindModel,
    pub content: Seq<char>,
}

impl View for File {
    type V = FileModel;

    closed spec fn view(&self) -> FileModel {
        FileModel { path: self.path@, kind: self.kind@, content: self.content@ }
    }
}

impl File {
    /// An empty run file at `path` of the kind named `kind` (`sh` or `bash`).
    pub fn new(path: String, kind: &str) -> (r: Result<Self, RunFileError>)
        ensures
            match (r, kind_from_name(kind@)) {
                (Ok(f), Some(k)) => f@ == (FileModel { path: path@, kind: k, content: seq![] }),
                (Err(e), None) => e matches RunFileError::UnknownKind(n) && n@ == kind@,
                _ => false,
            },
    {
        let kind = Kind::from_name(kind)?;
        let r = File { path, kind, content: String::new() };
        assert(r@.content =~= seq![]);
        Ok(r)
    }

    pub fn path(&self) -> (r: &String)
        ensures
            r@ == self@.path,
    {
        &self.path
    }

    pub fn kind(&self) -> (r: &Kind)
        ensures
            r@ == self@.kind,
    {
        &self.kind
    }

    pub fn content(&self) -> (r: &String)
        ensures
            r@ == self@.content,
    {
        &self.content
    }

    /// Replaces the content with the script that the kind generates for
    /// `array_vars` and `vars`.
    pub fn generate(&mut self, array_vars: &ArrayVars, vars: &Vars) -> (r: Result<(), RunFileError>)
        ensures
            r is Ok,
            final(self)@ == (FileModel {
                content: script_text(old(self)@.kind, array_vars@, vars@),
                ..old(self)@
            }),
    {
        self.content = self.kind.generate(array_vars, vars)?;
        Ok(())
    }

    /// Appends an empty line, then `code` on a line of its own.
    pub fn append(&mut self, code: &str) -> (r: Result<(), RunFileError>)
        ensures
            r is Ok,
            final(self)@ == (FileModel {
                content: old(self)@.content + "\n"@ + code@ + "\n"@,
                ..old(self)@
            }),
    {
        self.content.append("\n");
        self.content.append(code);
        self.content.append("\n");
        Ok(())
    }
}

} // verus!
