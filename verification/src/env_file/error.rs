use vstd::prelude::*;

verus! {

/// Failure to read the entries of an env file.
#[derive(Debug)]
pub enum EnvReaderError {
    /// The content could not be read; the message describes why.
    Io { message: String },
    /// A variable name holds white space.
    SpaceOnVarName(String),
    /// A line is neither empty, a comment nor a `name=value` assignment.
    Unknown,
}

/// Mathematical model of [`EnvReaderError`].
pub enum ReaderErrorModel {
    Io(Seq<char>),
    SpaceOnVarName(Seq<char>),
    Unknown,
}

impl View for EnvReaderError {
    type V = ReaderErrorModel;

    open spec fn view(&self) -> ReaderErrorModel {
        match self {
            EnvReaderError::Io { message } => ReaderErrorModel::Io(message@),
            EnvReaderError::SpaceOnVarName(name) => ReaderErrorModel::SpaceOnVarName(name@),
            EnvReaderError::Unknown => ReaderErrorModel::Unknown,
        }
    }
}

/// Failure of an operation on an env file.
#[derive(Debug)]
pub enum EnvError {
    /// An input/output operation failed; the message describes why.
    Io { message: String },
    /// A file system operation failed; the message describes why.
    FsExtra { message: String },
    /// The content of `file` could not be parsed.
    FailToParse { source: EnvReaderError, file: String },
    /// The variable (first field) is not defined in the env file (second field).
    EnvVarNotFound(String, String),
    /// The path of the env file has no file name.
    EnvFileHasNoFileName(String),
    /// The file name of the env file is empty.
    EnvFileNameIsEmpty(String),
    /// The file name of the env file does not begin with `.`.
    EnvFileNameIncorrect(String),
}

/// Mathematical model of [`EnvError`].
pub enum EnvErrorModel {
    Io(Seq<char>),
    FsExtra(Seq<char>),
    FailToParse(ReaderErrorModel, Seq<char>),
    EnvVarNotFound(Seq<char>, Seq<char>),
    EnvFileHasNoFileName(Seq<char>),
    EnvFileNameIsEmpty(Seq<char>),
    EnvFileNameIncorrect(Seq<char>),
}

impl View for EnvError {
    type V = EnvErrorModel;

    open spec fn view(&self) -> EnvErrorModel {
        match self {
            EnvError::Io { message } => EnvErrorModel::Io(message@),
            EnvError::FsExtra { message } => EnvErrorModel::FsExtra(message@),
            EnvError::FailToParse { source, file } => EnvErrorModel::FailToParse(source@, file@),
            EnvError::EnvVarNotFound(name, file) => EnvErrorModel::EnvVarNotFound(name@, file@),
            EnvError::EnvFileHasNoFileName(file) => EnvErrorModel::EnvFileHasNoFileName(file@),
            EnvError::EnvFileNameIsEmpty(file) => EnvErrorModel::EnvFileNameIsEmpty(file@),
            EnvError::EnvFileNameIncorrect(file) => EnvErrorModel::EnvFileNameIncorrect(file@),
        }
    }
}

} // verus!
