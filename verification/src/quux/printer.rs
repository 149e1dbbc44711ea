//! The printer: a value to its canonical text.

use vstd::prelude::*;
use vstd::string::StringExecFns;

use crate::quux::numeral::decimal;
use crate::quux::numeral::int_text;
use crate::quux::types::forms_of;
use crate::quux::types::Form;
use crate::quux::types::MalType;

verus! {

/// The canonical text of a value: an atom as it is written, a collection
/// as its items' texts with one blank between them, inside its delimiters.
pub open spec fn text_of(f: Form) -> Seq<char>
    decreases f,
{
    match f {
        Form::Nil => "nil"@,
        Form::Bool(b) => if b {
            "true"@
        } else {
            "false"@
        },
        Form::Int(i) => decimal(i),
        Form::Str(s) => s,
        Form::Symbol(s) => s,
        Form::List(items) => "("@ + joined(items, items.len()) + ")"@,
        Form::Vector(items) => "["@ + joined(items, items.len()) + "]"@,
        Form::HashMap(items) => "{"@ + joined(items, items.len()) + "}"@,
    }
}

/// The texts of the first `n` items, with one blank between neighbours.
pub open spec fn joined(items: Seq<Form>, n: nat) -> Seq<char>
    decreases items, n,
{
    if n == 0 || n > items.len() {
        Seq::empty()
    } else if n == 1 {
        text_of(items[0])
    } else {
        joined(items, (n - 1) as nat) + " "@ + text_of(items[n - 1])
    }
}

/// What can be written as text.
pub trait Printer {
    /// The text that `pr_str` gives.
    spec fn printed(&self) -> Seq<char>;

    /// Writes the value as text.
    fn pr_str(&self) -> (s: String)
        ensures
            s@ == self.printed(),
    ;
}

/// Writes the items with one blank between neighbours, between `start`
/// and `end`.
fn print_items(items: &Vec<MalType>, start: &str, end: &str) -> (s: String)
    ensures
        s@ == start@ + joined(forms_of(items@), items.len() as nat) + end@,
    decreases items,
{
    let ghost forms = forms_of(items@);
    let mut out = String::from_str(start);
    let mut i: usize = 0;
    while i < items.len()
        invariant
            i <= items.len(),
            forms == forms_of(items@),
            out@ == start@ + joined(forms, i as nat),
        decreases items.len() - i,
    {
        if i > 0 {
            out.append(" ");
        }
        let text = items[i].pr_str();
        out.append(text.as_str());
        assert(forms[i as int] == items[i as int]@);
        assert(out@ =~= start@ + joined(forms, (i + 1) as nat));
        i += 1;
    }
    out.append(end);
    out
}

impl Printer for MalType {
    open spec fn printed(&self) -> Seq<char> {
        text_of(self@)
    }

    fn pr_str(&self) -> (s: String)
        decreases self,
    {
        match self {
            MalType::Nil => String::from_str("nil"),
            MalType::Symbol(s) => s.clone(),
            MalType::Int(i) => int_text(*i),
            MalType::String(s) => s.clone(),
            MalType::Bool(b) => if *b {
                String::from_str("true")
            } else {
                String::from_str("false")
            },
            MalType::List(l) => print_items(l, "(", ")"),
            MalType::Vector(l) => print_items(l, "[", "]"),
            MalType::HashMap(l) => print_items(l, "{", "}"),
        }
    }
}

} // verus!
