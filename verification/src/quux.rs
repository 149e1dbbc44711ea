//! A reader and a printer for a small Lisp: text to values and back.

use vstd::prelude::*;

pub mod env;
pub mod numeral;
pub mod pattern;
pub mod printer;
pub mod reader;
pub mod roundtrip;
pub mod step0_repl;
pub mod step1_repl;
pub mod step2_eval;
pub mod text;
pub mod types;

use crate::quux::types::Form;
use crate::quux::types::MalType;

verus! {

/// What a `MalErr` stands for: the same failures, with text as its
/// characters.
pub enum Fault {
    EmptyInput,
    UnexpectedCloser(char),
    UnterminatedCollection,
    InternalError,
    Message(Seq<char>),
}

/// Why reading or evaluating failed.
#[derive(Debug, PartialEq)]
pub enum MalErr {
    /// No token was left where a form was expected.
    EmptyInput,
    /// A closing delimiter stood where a form was expected.
    UnexpectedCloser(char),
    /// The tokens ran out before a collection was closed.
    UnterminatedCollection,
    /// The reader found itself in a state that its own rules exclude.
    InternalError,
    /// Any other failure, with its description.
    ErrString(String),
}

impl View for MalErr {
    type V = Fault;

    open spec fn view(&self) -> Fault {
        match self {
            MalErr::EmptyInput => Fault::EmptyInput,
            MalErr::UnexpectedCloser(c) => Fault::UnexpectedCloser(*c),
            MalErr::UnterminatedCollection => Fault::UnterminatedCollection,
            MalErr::InternalError => Fault::InternalError,
            MalErr::ErrString(s) => Fault::Message(s@),
        }
    }
}

/// What `message` says of a failure.
pub open spec fn message_of(fault: Fault) -> Seq<char> {
    match fault {
        Fault::EmptyInput => "no token where a form was expected"@,
        Fault::UnexpectedCloser(c) => if c == ')' {
            "unexpected )"@
        } else if c == ']' {
            "unexpected ]"@
        } else if c == '}' {
            "unexpected }"@
        } else {
            "unexpected closing delimiter"@
        },
        Fault::UnterminatedCollection => "the input ended inside a collection"@,
        Fault::InternalError => "internal error in the reader"@,
        Fault::Message(text) => text,
    }
}

impl MalErr {
    /// A description of the failure for a person to read.
    pub fn message(&self) -> (text: String)
        ensures
            text@ == message_of(self@),
    {
        match self {
            MalErr::EmptyInput => "no token where a form was expected".to_owned(),
            MalErr::UnexpectedCloser(c) => if *c == ')' {
                "unexpected )".to_owned()
            } else if *c == ']' {
                "unexpected ]".to_owned()
            } else if *c == '}' {
                "unexpected }".to_owned()
            } else {
                "unexpected closing delimiter".to_owned()
            },
            MalErr::UnterminatedCollection => "the input ended inside a collection".to_owned(),
            MalErr::InternalError => "internal error in the reader".to_owned(),
            MalErr::ErrString(text) => text.clone(),
        }
    }
}

/// A value, or why there is none.
pub type MalResult = Result<MalType, MalErr>;

/// A result as the values it stands for.
pub open spec fn outcome(r: MalResult) -> Result<Form, Fault> {
    match r {
        Ok(v) => Ok(v@),
        Err(e) => Err(e@),
    }
}

/// A printed result as what it stands for.
pub open spec fn printed_outcome(r: Result<String, MalErr>) -> Result<Seq<char>, Fault> {
    match r {
        Ok(s) => Ok(s@),
        Err(e) => Err(e@),
    }
}

/// Fails with the given description.
pub fn raise_err(s: &str) -> (r: MalResult)
    ensures
        outcome(r) == Err::<Form, Fault>(Fault::Message(s@)),
{
    Err(MalErr::ErrString(s.to_owned()))
}

} // verus!
