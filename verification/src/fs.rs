//! Files whose content satisfies a predicate.
use vstd::prelude::*;

use crate::io::{
    all_lines_refused, read_to_string_finds, some_line_accepted, NO_MATCH_MESSAGE,
};

verus! {

/// Why a file could not be taken.
#[derive(Debug)]
pub enum ReadError {
    /// The file could not be read.
    Io(String),
    /// The file was read but is not what was looked for.
    Other(String),
}

/// Mathematical model of an [`ReadError`].
pub enum ReadErrorModel {
    Io(Seq<char>),
    Other(Seq<char>),
}

impl View for ReadError {
    type V = ReadErrorModel;

    open spec fn view(&self) -> ReadErrorModel {
        match self {
            ReadError::Io(m) => ReadErrorModel::Io(m@),
            ReadError::Other(m) => ReadErrorModel::Other(m@),
        }
    }
}

/// A file path with the content of the file.
#[derive(Debug)]
pub struct ContentFile {
    pub path: String,
    pub contents: String,
}

/// Mathematical model of a [`ContentFile`].
pub struct ContentFileModel {
    pub path: Seq<char>,
    pub contents: Seq<char>,
}

impl View for ContentFile {
    type V = ContentFileModel;

    open spec fn view(&self) -> ContentFileModel {
        ContentFileModel { path: self.path@, contents: self.contents@ }
    }
}

/// `out` is a possible outcome of reading the file `path`, whose reading gave
/// `read`, with the predicate `f`: the reading error, or the file when `f`
/// accepted one of its lines, or the error that nothing matched.
pub open spec fn read_outcome<F: Fn(&str) -> bool>(
    f: F,
    path: Seq<char>,
    read: Result<Seq<char>, ReadErrorModel>,
    out: Result<ContentFileModel, ReadErrorModel>,
) -> bool {
    match read {
        Err(e) => out == Err::<ContentFileModel, ReadErrorModel>(e),
        Ok(data) => match out {
            Ok(c) => c.path == path && c.contents == data && some_line_accepted(f, data),
            Err(e) => e == ReadErrorModel::Other(NO_MATCH_MESSAGE@) && all_lines_refused(f, data),
        },
    }
}

/// The files among `outs`, in order.
pub open spec fn oks_of(outs: Seq<Result<ContentFileModel, ReadErrorModel>>) -> Seq<ContentFileModel>
    decreases outs.len(),
{
    if outs.len() == 0 {
        seq![]
    } else {
        match outs.last() {
            Ok(c) => oks_of(outs.drop_last()).push(c),
            Err(_) => oks_of(outs.drop_last()),
        }
    }
}

/// The errors among `outs`, in order.
pub open spec fn errs_of(outs: Seq<Result<ContentFileModel, ReadErrorModel>>) -> Seq<ReadErrorModel>
    decreases outs.len(),
{
    if outs.len() == 0 {
        seq![]
    } else {
        match outs.last() {
            Ok(_) => errs_of(outs.drop_last()),
            Err(e) => errs_of(outs.drop_last()).push(e),
        }
    }
}

/// The model of the reading of a file.
pub open spec fn read_model(read: Result<String, ReadError>) -> Result<Seq<char>, ReadErrorModel> {
    match read {
        Ok(s) => Ok(s@),
        Err(e) => Err(e@),
    }
}

/// The model of the outcome of reading a file.
pub open spec fn outcome_model(out: &Result<ContentFile, ReadError>) -> Result<
    ContentFileModel,
    ReadErrorModel,
> {
    match out {
        Ok(c) => Ok(c@),
        Err(e) => Err(e@),
    }
}

impl ContentFile {
    /// The file `path`, whose content is `data`, when the predicate
    /// `next_line` accepts one of its lines.
    pub fn read_contain<F: Fn(&str) -> bool>(path: String, data: &str, next_line: F) -> (r: Result<
        ContentFile,
        ReadError,
    >)
        requires
            forall|p: &str| next_line.requires((p,)),
        ensures
            read_outcome(
                next_line,
                path@,
                Ok(data@),
                outcome_model(&r),
            ),
    {
        match read_to_string_finds(data, next_line) {
            Ok(contents) => Ok(ContentFile { path, contents }),
            Err(e) => Err(ReadError::Other(e.detail)),
        }
    }

    /// Each file of `files` (its path, and its content or the error that
    /// reading it gave) that the predicate `next_line` accepts, and the
    /// errors of the others, both in order.
    pub fn read_contain_multi<F: Fn(&str) -> bool>(
        files: Vec<(String, Result<String, ReadError>)>,
        next_line: F,
    ) -> (r: (Vec<ContentFile>, Vec<ReadError>))
        requires
            forall|p: &str| next_line.requires((p,)),
        ensures
            exists|outs: Seq<Result<ContentFileModel, ReadErrorModel>>|
                {
                    &&& outs.len() == files@.len()
                    &&& forall|i: int|
                        0 <= i < files@.len() ==> read_outcome(
                            next_line,
                            files@[i].0@,
                            read_model(files@[i].1),
                            #[trigger] outs[i],
                        )
                    &&& r.0@.map_values(|c: ContentFile| c@) == oks_of(outs)
                    &&& r.1@.map_values(|e: ReadError| e@) == errs_of(outs)
                },
    {
        let ghost input = files@;
        let ghost mut outs: Seq<Result<ContentFileModel, ReadErrorModel>> = seq![];
        let mut content_files: Vec<ContentFile> = Vec::new();
        let mut errors: Vec<ReadError> = Vec::new();
        let n = files.len();
        let mut rest = files;
        let mut i: usize = 0;
        assert(input.skip(0) =~= input);
        while rest.len() > 0
            invariant
                i + rest@.len() == input.len() <= usize::MAX,
                rest@ == input.skip(i as int),
                forall|p: &str| next_line.requires((p,)),
                outs.len() == i,
                forall|j: int|
                    0 <= j < i ==> read_outcome(
                        next_line,
                        input[j].0@,
                        read_model(input[j].1),
                        #[trigger] outs[j],
                    ),
                content_files@.map_values(|c: ContentFile| c@) == oks_of(outs),
                errors@.map_values(|e: ReadError| e@) == errs_of(outs),
            decreases rest@.len(),
        {
            let ghost before = rest@;
            let (path, read) = rest.remove(0);
            assert(before[0] == input[i as int]);
            assert(rest@ =~= input.skip(i + 1));
            let ghost old_files = content_files@;
            let ghost old_errors = errors@;
            let ghost old_outs = outs;
            let out = match read {
                Err(e) => Err(e),
                Ok(data) => ContentFile::read_contain(path, data.as_str(), &next_line),
            };
            proof {
                outs = outs.push(outcome_model(&out));
                assert(outs.drop_last() =~= old_outs);
            }
            match out {
                Ok(c) => {
                    content_files.push(c);
                    assert(content_files@.map_values(|c: ContentFile| c@) =~= old_files.map_values(
                        |c: ContentFile| c@,
                    ).push(c@));
                    assert(errors@.map_values(|e: ReadError| e@) == errs_of(outs));
                },
                Err(e) => {
                    errors.push(e);
                    assert(errors@.map_values(|e: ReadError| e@) =~= old_errors.map_values(
                        |e: ReadError| e@,
                    ).push(e@));
                },
            }
            i = i + 1;
        }
        (content_files, errors)
    }
}

} // verus!
