//! Checks of the input files before a run.
//!
//! The caller looks at the file system and reports what it found; these
//! functions decide whether the file can be used and what to say if not.

use vstd::prelude::*;

verus! {

/// What the file system says about a path.
pub struct FileFacts {
    pub exists: bool,
    pub is_file: bool,
    pub len: u64,
    pub openable: bool,
}

/// Why a file cannot be used.
#[derive(Debug, PartialEq, Eq, Structural)]
pub enum FileProblem {
    DoesNotExist,
    NotAFile,
    Empty,
    NotReadable,
}

/// The first problem of a file, checked in the order: existence, kind, size, readability.
pub open spec fn first_problem(f: FileFacts) -> Option<FileProblem> {
    if !f.exists {
        Some(FileProblem::DoesNotExist)
    } else if !f.is_file {
        Some(FileProblem::NotAFile)
    } else if f.len == 0 {
        Some(FileProblem::Empty)
    } else if !f.openable {
        Some(FileProblem::NotReadable)
    } else {
        None
    }
}

/// Whether the file can be read, and if not, why.
pub fn validate_file(facts: &FileFacts) -> (r: Result<(), FileProblem>)
    ensures
        r is Ok <==> first_problem(*facts) is None,
        r matches Err(p) ==> first_problem(*facts) == Some(p),
{
    if !facts.exists {
        Err(FileProblem::DoesNotExist)
    } else if !facts.is_file {
        Err(FileProblem::NotAFile)
    } else if facts.len == 0 {
        Err(FileProblem::Empty)
    } else if !facts.openable {
        Err(FileProblem::NotReadable)
    } else {
        Ok(())
    }
}

/// An optional file is fine when it was not given, and else must pass `validate_file`.
pub fn validate_optional_file(facts: &Option<FileFacts>) -> (r: Result<(), FileProblem>)
    ensures
        facts is None ==> r is Ok,
        facts matches Some(f) ==> (r is Ok <==> first_problem(*f) is None),
        facts matches Some(f) ==> (r matches Err(p) ==> first_problem(*f) == Some(p)),
{
    match facts {
        Some(f) => validate_file(f),
        None => Ok(()),
    }
}

/// The text after the label and before the path in the message for `p`.
pub open spec fn problem_text(p: FileProblem) -> Seq<char> {
    match p {
        FileProblem::DoesNotExist => " does not exist: "@,
        FileProblem::NotAFile => " is not a file: "@,
        FileProblem::Empty => " is empty: "@,
        FileProblem::NotReadable => " could not be opened: "@,
    }
}

/// The message for a file problem: the label, what is wrong, and the path.
pub fn problem_message(label: &str, path: &str, p: &FileProblem) -> (s: String)
    ensures
        s@ == label@ + problem_text(*p) + path@,
{
    let mut s = label.to_owned();
    match p {
        FileProblem::DoesNotExist => s.append(" does not exist: "),
        FileProblem::NotAFile => s.append(" is not a file: "),
        FileProblem::Empty => s.append(" is empty: "),
        FileProblem::NotReadable => s.append(" could not be opened: "),
    }
    s.append(path);
    s
}

/// What the file system says about the directory an output file is written to.
pub struct OutputFacts {
    pub dir_exists: bool,
    pub dir_writable: bool,
}

/// Why an output file cannot be written.
#[derive(Debug, PartialEq, Eq, Structural)]
pub enum OutputProblem {
    DirectoryDoesNotExist,
    DirectoryNotWritable,
}

/// Whether the output file can be written, and if not, why: the directory
/// must exist and be writable.
pub fn validate_output(facts: &OutputFacts) -> (r: Result<(), OutputProblem>)
    ensures
        !facts.dir_exists ==> r == Err::<(), OutputProblem>(OutputProblem::DirectoryDoesNotExist),
        facts.dir_exists && !facts.dir_writable ==> r == Err::<(), OutputProblem>(OutputProblem::DirectoryNotWritable),
        facts.dir_exists && facts.dir_writable ==> r is Ok,
{
    if !facts.dir_exists {
        Err(OutputProblem::DirectoryDoesNotExist)
    } else if !facts.dir_writable {
        Err(OutputProblem::DirectoryNotWritable)
    } else {
        Ok(())
    }
}

/// The message for an output problem: the label, what is wrong, and the path.
pub fn output_problem_message(label: &str, path: &str, p: &OutputProblem) -> (s: String)
    ensures
        s@ == label@ + match *p {
            OutputProblem::DirectoryDoesNotExist => " is in a directory that does not exist: "@,
            OutputProblem::DirectoryNotWritable => " is in a directory that is not writable: "@,
        } + path@,
{
    let mut s = label.to_owned();
    match p {
        OutputProblem::DirectoryDoesNotExist => s.append(" is in a directory that does not exist: "),
        OutputProblem::DirectoryNotWritable => s.append(" is in a directory that is not writable: "),
    }
    s.append(path);
    s
}

} // verus!
