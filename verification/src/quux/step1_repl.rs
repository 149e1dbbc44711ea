//! The second step: a line is read into a value and the value printed.

use vstd::prelude::*;

use crate::quux::outcome;
use crate::quux::printed_outcome;
use crate::quux::printer::text_of;
use crate::quux::printer::Printer;
use crate::quux::reader::form_of_text;
use crate::quux::reader::read_str;
use crate::quux::types::Form;
use crate::quux::types::MalType;
use crate::quux::Fault;
use crate::quux::MalErr;
use crate::quux::MalResult;

verus! {

/// The text that a line comes back as, or why it could not be read.
pub open spec fn reprinted(text: Seq<char>) -> Result<Seq<char>, Fault> {
    match form_of_text(text) {
        Ok(form) => Ok(text_of(form)),
        Err(e) => Err(e),
    }
}

/// Reads the first form of a line.
pub fn read(s: &str) -> (r: MalResult)
    ensures
        outcome(r) == form_of_text(s@),
{
    read_str(s)
}

/// Evaluates a value: for now the value itself.
pub fn eval(ast: &MalType, _env: &str) -> (r: MalResult)
    ensures
        outcome(r) == Ok::<Form, Fault>(ast@),
{
    Ok(ast.clone())
}

/// Prints a value.
pub fn print(exp: &MalType) -> (s: String)
    ensures
        s@ == text_of(exp@),
{
    exp.pr_str()
}

/// Reads, evaluates and prints a line.
pub fn rep(s: &str) -> (r: Result<String, MalErr>)
    ensures
        printed_outcome(r) == reprinted(s@),
{
    match read(s) {
        Ok(ast) => match eval(&ast, "") {
            Ok(value) => Ok(print(&value)),
            Err(e) => Err(e),
        },
        Err(e) => Err(e),
    }
}

} // verus!
