//! The third step: as the second, with the built-ins at hand.

use vstd::prelude::*;

use crate::quux::env::Env;
use crate::quux::outcome;
use crate::quux::printed_outcome;
use crate::quux::printer::text_of;
use crate::quux::printer::Printer;
use crate::quux::reader::form_of_text;
use crate::quux::reader::read_str;
use crate::quux::step1_repl::reprinted;
use crate::quux::types::Form;
use crate::quux::types::MalType;
use crate::quux::Fault;
use crate::quux::MalErr;
use crate::quux::MalResult;

verus! {

/// Reads the first form of a line.
pub fn read(s: &str) -> (r: MalResult)
    ensures
        outcome(r) == form_of_text(s@),
{
    read_str(s)
}

/// Evaluates a value: for now the value itself, whatever the built-ins.
pub fn eval(ast: &MalType, _env: &Env) -> (r: MalResult)
    ensures
        outcome(r) == Ok::<Form, Fault>(ast@),
{
    Ok(ast.clone())
}

/// Prints a value.
pub fn print(exp: &MalType) -> (s: String)
    ensures
        s@ == text_of(exp@),
{
    exp.pr_str()
}

/// Reads, evaluates and prints a line.
pub fn rep(s: &str, env: &Env) -> (r: Result<String, MalErr>)
    ensures
        printed_outcome(r) == reprinted(s@),
{
    match read(s) {
        Ok(ast) => match eval(&ast, env) {
            Ok(value) => Ok(print(&value)),
            Err(e) => Err(e),
        },
        Err(e) => Err(e),
    }
}

} // verus!
