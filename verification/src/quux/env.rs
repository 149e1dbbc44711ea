//! The table of arithmetic built-ins.

use vstd::hash_map::StringHashMap;
use vstd::prelude::*;

use crate::quux::numeral::fits_i32;
use crate::quux::outcome;
use crate::quux::raise_err;
use crate::quux::types::Form;
use crate::quux::types::MalType;
use crate::quux::Fault;
use crate::quux::MalResult;

verus! {

/// An arithmetic operation on two integers.
#[derive(Clone, Copy, Debug, PartialEq, Eq)]
pub enum Builtin {
    Add,
    Sub,
    Mul,
    Div,
}

/// The built-ins by name.
pub struct Env(StringHashMap<Builtin>);

/// The names of the built-ins and what each stands for.
pub open spec fn builtins() -> Map<Seq<char>, Builtin> {
    Map::<Seq<char>, Builtin>::empty().insert("+"@, Builtin::Add).insert("-"@, Builtin::Sub).insert(
        "*"@,
        Builtin::Mul,
    ).insert("/"@, Builtin::Div)
}

/// The quotient of two integers, rounded toward zero.
pub open spec fn quotient(a: int, b: int) -> int {
    if a >= 0 {
        a / b
    } else {
        -((-a) / b)
    }
}

/// The number that an operation gives on two numbers. A division by zero
/// gives zero.
pub open spec fn computed(op: Builtin, a: int, b: int) -> int {
    match op {
        Builtin::Add => a + b,
        Builtin::Sub => a - b,
        Builtin::Mul => a * b,
        Builtin::Div => if b == 0 {
            0
        } else {
            quotient(a, b)
        },
    }
}

/// What is said where an operand is no integer.
pub open spec fn type_error(op: Builtin) -> Seq<char> {
    match op {
        Builtin::Add => "Caught unexpected type while parsing `+`"@,
        Builtin::Sub => "Caught unexpected type while parsing `-`"@,
        Builtin::Mul => "Caught unexpected type while parsing `*`"@,
        Builtin::Div => "Caught unexpected type while parsing `/`"@,
    }
}

/// What an operation gives on two values: a number on two integers, else
/// a failure.
pub open spec fn applied(op: Builtin, a: Form, b: Form) -> Result<Form, Fault> {
    if a is Int && b is Int {
        Ok(Form::Int(computed(op, a->Int_0, b->Int_0)))
    } else {
        Err(Fault::Message(type_error(op)))
    }
}

impl View for Env {
    type V = Map<Seq<char>, Builtin>;

    closed spec fn view(&self) -> Map<Seq<char>, Builtin> {
        self.0@
    }
}

impl Env {
    /// The table of the four arithmetic built-ins.
    pub fn init() -> (env: Env)
        ensures
            env@ == builtins(),
    {
        let mut table: StringHashMap<Builtin> = StringHashMap::new();
        table.insert("+".to_owned(), Builtin::Add);
        table.insert("-".to_owned(), Builtin::Sub);
        table.insert("*".to_owned(), Builtin::Mul);
        table.insert("/".to_owned(), Builtin::Div);
        Env(table)
    }

    /// The built-in of a name, if the table has one.
    pub fn lookup(&self, name: &str) -> (op: Option<Builtin>)
        ensures
            op == if self@.contains_key(name@) {
                Some(self@[name@])
            } else {
                None
            },
    {
        match self.0.get(name) {
            Some(op) => Some(*op),
            None => None,
        }
    }
}

impl Builtin {
    /// Applies the operation to two values. On two integers the number
    /// that comes out has to fit in 32 bits.
    pub fn apply(self, a: MalType, b: MalType) -> (r: MalResult)
        requires
            a@ is Int && b@ is Int ==> fits_i32(computed(self, a@->Int_0, b@->Int_0)),
        ensures
            outcome(r) == applied(self, a@, b@),
    {
        match (a, b) {
            (MalType::Int(x), MalType::Int(y)) => Ok(
                MalType::Int(
                    match self {
                        Builtin::Add => x + y,
                        Builtin::Sub => x - y,
                        Builtin::Mul => x * y,
                        Builtin::Div => if y == 0 {
                            0
                        } else {
                            x / y
                        },
                    },
                ),
            ),
            _ => match self {
                Builtin::Add => raise_err("Caught unexpected type while parsing `+`"),
                Builtin::Sub => raise_err("Caught unexpected type while parsing `-`"),
                Builtin::Mul => raise_err("Caught unexpected type while parsing `*`"),
                Builtin::Div => raise_err("Caught unexpected type while parsing `/`"),
            },
        }
    }
}

} // verus!
