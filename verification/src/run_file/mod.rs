//! Generation of the run script of a setup and of the environment it runs in.
use vstd::prelude::*;

pub mod array_var;
pub mod file;
pub mod var;

pub use array_var::{generate_var, generate_vars};
pub use file::{BashScript, File, Generate, Kind, ShScript};
pub use var::{
    generate_array_env_var, generate_env_var, generate_env_vars, var_name, EnvValue, EnvVar,
    ENV_ENVIRONMENT_VAR, ENV_SETUP_VAR,
};

verus! {

/// Failure while generating a run file or its variables.
#[derive(Debug)]
pub enum RunFileError {
    /// The pattern of an array variable is not a valid regular expression.
    InvalidPattern { pattern: String, message: String },
    /// The kind of run file is neither `sh` nor `bash`.
    UnknownKind(String),
}

/// What a run script printed and how it exited.
#[derive(Debug)]
pub struct Output {
    pub status: i32,
    pub stdout: String,
    pub stderr: String,
}

impl Output {
    /// An output with status 0 and nothing printed.
    pub fn new() -> (r: Self)
        ensures
            r.status == 0,
            r.stdout@ == Seq::<char>::empty(),
            r.stderr@ == Seq::<char>::empty(),
    {
        Output { status: 0, stdout: String::new(), stderr: String::new() }
    }
}

} // verus!
