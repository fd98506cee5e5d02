//! Typed diagnostics: each error carries its resolved location where one
//! applies, and renders to the human-readable message shown to the caller.
use vstd::prelude::*;
use vstd::string::StringExecFns;
use crate::decimal::dec_chars;
use crate::decimal::usize_to_string;
use crate::location::find_location;
use crate::location::line_of;
use crate::location::column_of;

verus! {

/// What went wrong, with the data each diagnostic carries.
#[derive(Debug)]
pub enum ErrorKind {
    /// A pointer or cell value would leave its valid range in safe mode.
    Overflow { line: usize, column: usize, problem: String, place: String },
    /// Unbalanced brackets, found before execution starts.
    Syntax { line: usize, column: usize, problem: String },
    /// A position in the source could not be decoded as a character.
    Parsing { line: usize, column: usize },
    /// The source could not be read from its origin.
    File { message: String },
    /// A loop was judged runaway by the iteration watchdog.
    Iteration { max_iters: u16 },
}

/// A fatal diagnostic, with the process exit code the caller should use.
#[derive(Debug)]
pub struct ExecutionError {
    pub kind: ErrorKind,
    pub code: u8,
}

/// The rendered message of an error.
pub open spec fn spec_details(e: ExecutionError) -> Seq<char> {
    match e.kind {
        ErrorKind::Overflow { line, column, problem, place } => dec_chars(line as nat) + ":"@
            + dec_chars(column as nat) + " - Overflow Error - "@ + problem@ + " at "@ + place@,
        ErrorKind::Syntax { line, column, problem } => dec_chars(line as nat) + ":"@ + dec_chars(
            column as nat,
        ) + " - Syntax Error - "@ + problem@,
        ErrorKind::Parsing { line, column } => dec_chars(line as nat) + ":"@ + dec_chars(
            column as nat,
        ) + " - Parsing Error"@,
        ErrorKind::File { message } => "File Handling Error - "@ + message@,
        ErrorKind::Iteration { max_iters } => "Iteration Error - Exceeded max number of iterations ("@
            + dec_chars(max_iters as nat) + ")"@,
    }
}

impl ExecutionError {
    /// An overflow or underflow diagnostic at `location`, naming what
    /// overflowed (`problem`) and where (`overflow_location`).
    pub fn new_overflow(location: usize, problem: &str, overflow_location: &str, program: &str) -> (
        e: ExecutionError)
        requires
            location < program@.len(),
        ensures
            e.kind matches ErrorKind::Overflow { line, column, problem: p, place } && {
                &&& line == line_of(program@, location as int)
                &&& column == column_of(program@, location as int)
                &&& p@ == problem@
                &&& place@ == overflow_location@
            },
            e.code == 75,
    {
        let (line, column) = find_location(location, program);
        ExecutionError {
            kind: ErrorKind::Overflow {
                line,
                column,
                problem: String::from_str(problem),
                place: String::from_str(overflow_location),
            },
            code: 75,
        }
    }

    /// A syntax diagnostic at `location`, describing the fault in `problem`.
    pub fn new_syntax(location: usize, problem: &str, program: &str) -> (e: ExecutionError)
        requires
            location < program@.len(),
        ensures
            e.kind matches ErrorKind::Syntax { line, column, problem: p } && {
                &&& line == line_of(program@, location as int)
                &&& column == column_of(program@, location as int)
                &&& p@ == problem@
            },
            e.code == 1,
    {
        let (line, column) = find_location(location, program);
        ExecutionError {
            kind: ErrorKind::Syntax { line, column, problem: String::from_str(problem) },
            code: 1,
        }
    }

    /// A parsing diagnostic at `location`.
    pub fn new_parsing(location: usize, program: &str) -> (e: ExecutionError)
        requires
            location < program@.len(),
        ensures
            e.kind matches ErrorKind::Parsing { line, column } && {
                &&& line == line_of(program@, location as int)
                &&& column == column_of(program@, location as int)
            },
            e.code == 1,
    {
        let (line, column) = find_location(location, program);
        ExecutionError { kind: ErrorKind::Parsing { line, column }, code: 1 }
    }

    /// A file-handling diagnostic carrying `message`.
    pub fn new_file(message: &str) -> (e: ExecutionError)
        ensures
            e.kind matches ErrorKind::File { message: m } && m@ == message@,
            e.code == 2,
    {
        ExecutionError { kind: ErrorKind::File { message: String::from_str(message) }, code: 2 }
    }

    /// An iteration diagnostic carrying the configured maximum.
    pub fn new_iter(max_iters: u16) -> (e: ExecutionError)
        ensures
            e.kind matches ErrorKind::Iteration { max_iters: m } && m == max_iters,
            e.code == 1,
    {
        ExecutionError { kind: ErrorKind::Iteration { max_iters }, code: 1 }
    }

    /// The human-readable message of this error.
    pub fn details(&self) -> (r: String)
        ensures
            r@ == spec_details(*self),
    {
        match &self.kind {
            ErrorKind::Overflow { line, column, problem, place } => {
                let mut s = usize_to_string(*line);
                s.append(":");
                let col = usize_to_string(*column);
                s.append(col.as_str());
                s.append(" - Overflow Error - ");
                s.append(problem.as_str());
                s.append(" at ");
                s.append(place.as_str());
                s
            },
            ErrorKind::Syntax { line, column, problem } => {
                let mut s = usize_to_string(*line);
                s.append(":");
                let col = usize_to_string(*column);
                s.append(col.as_str());
                s.append(" - Syntax Error - ");
                s.append(problem.as_str());
                s
            },
            ErrorKind::Parsing { line, column } => {
                let mut s = usize_to_string(*line);
                s.append(":");
                let col = usize_to_string(*column);
                s.append(col.as_str());
                s.append(" - Parsing Error");
                s
            },
            ErrorKind::File { message } => {
                let mut s = String::from_str("File Handling Error - ");
                s.append(message.as_str());
                s
            },
            ErrorKind::Iteration { max_iters } => {
                let mut s = String::from_str("Iteration Error - Exceeded max number of iterations (");
                let m = usize_to_string(*max_iters as usize);
                s.append(m.as_str());
                s.append(")");
                s
            },
        }
    }
}

} // verus!
