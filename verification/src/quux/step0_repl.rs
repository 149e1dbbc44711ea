//! The first step: a line comes back as it went in.

use vstd::prelude::*;

verus! {

/// Reads a line: the line itself.
pub fn read(s: &str) -> (r: String)
    ensures
        r@ == s@,
{
    s.to_owned()
}

/// Evaluates what was read: unchanged.
pub fn eval(ast: &str, _env: &str) -> (r: String)
    ensures
        r@ == ast@,
{
    ast.to_owned()
}

/// Prints what was evaluated: unchanged.
pub fn print(exp: &str) -> (r: String)
    ensures
        r@ == exp@,
{
    exp.to_owned()
}

/// Reads, evaluates and prints a line.
pub fn rep(s: &str) -> (r: String)
    ensures
        r@ == s@,
{
    let ast = read(s);
    let value = eval(ast.as_str(), "");
    print(value.as_str())
}

} // verus!
