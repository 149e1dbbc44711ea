//! The values of the language.

use vstd::pervasive::unreached;
use vstd::prelude::*;

use crate::quux::numeral::fits_i32;
use crate::quux::numeral::int_value;
use crate::quux::numeral::parse_int;

verus! {

/// The mathematical value that a `MalType` stands for: text as its
/// characters, a collection as the sequence of its items.
pub enum Form {
    Nil,
    Bool(bool),
    Int(int),
    Str(Seq<char>),
    Symbol(Seq<char>),
    List(Seq<Form>),
    Vector(Seq<Form>),
    HashMap(Seq<Form>),
}

/// A value: an atom, or a collection that owns its items in their order.
#[derive(Debug, PartialEq)]
pub enum MalType {
    Nil,
    Int(i32),
    /// A string literal as it was written, quotes and escapes included.
    String(String),
    Bool(bool),
    Symbol(String),
    /// The items between `(` and `)`.
    List(Vec<MalType>),
    /// The items between `[` and `]`.
    Vector(Vec<MalType>),
    /// The items between `{` and `}`: keys and values in turn, not paired.
    HashMap(Vec<MalType>),
}

/// The values that a sequence of items stands for, one for one.
pub open spec fn forms_of(items: Seq<MalType>) -> Seq<Form>
    decreases items,
{
    Seq::new(
        items.len(),
        |i: int|
            if 0 <= i < items.len() {
                items[i]@
            } else {
                Form::Nil
            },
    )
}

impl View for MalType {
    type V = Form;

    open spec fn view(&self) -> Form
        decreases self,
    {
        match self {
            MalType::Nil => Form::Nil,
            MalType::Int(i) => Form::Int(*i as int),
            MalType::String(s) => Form::Str(s@),
            MalType::Bool(b) => Form::Bool(*b),
            MalType::Symbol(s) => Form::Symbol(s@),
            MalType::List(items) => Form::List(forms_of(items@)),
            MalType::Vector(items) => Form::Vector(forms_of(items@)),
            MalType::HashMap(items) => Form::HashMap(forms_of(items@)),
        }
    }
}

impl MalType {
    /// The value `nil`.
    pub fn nil() -> (v: MalType)
        ensures
            v@ == Form::Nil,
    {
        MalType::Nil
    }

    /// The integer that a numeral writes. The numeral is one or more decimal
    /// digits after an optional `-`, and its number fits in 32 bits.
    pub fn integer(s: &str) -> (v: MalType)
        requires
            int_value(s@) is Some,
            fits_i32(int_value(s@)->0),
        ensures
            v@ == Form::Int(int_value(s@)->0),
    {
        match parse_int(s) {
            Some(i) => MalType::Int(i),
            None => unreached(),
        }
    }

    /// A string literal, kept as it is written.
    pub fn string(s: &str) -> (v: MalType)
        ensures
            v@ == Form::Str(s@),
    {
        MalType::String(s.to_owned())
    }

    /// A truth value.
    pub fn bool(b: bool) -> (v: MalType)
        ensures
            v@ == Form::Bool(b),
    {
        MalType::Bool(b)
    }

    /// The symbol of a name.
    pub fn symbol(s: &str) -> (v: MalType)
        ensures
            v@ == Form::Symbol(s@),
    {
        MalType::Symbol(s.to_owned())
    }

    /// The list of the given items followed by one more.
    pub fn continuous_list(l: Vec<MalType>, r: MalType) -> (v: MalType)
        ensures
            v@ == Form::List(forms_of(l@).push(r@)),
    {
        let mut items = l;
        items.push(r);
        assert(forms_of(items@) =~= forms_of(l@).push(r@));
        MalType::List(items)
    }

    /// The list of the given items.
    pub fn completed_list(l: Vec<MalType>) -> (v: MalType)
        ensures
            v@ == Form::List(forms_of(l@)),
    {
        MalType::List(l)
    }

    /// The vector of the given items.
    pub fn vector(v: Vec<MalType>) -> (r: MalType)
        ensures
            r@ == Form::Vector(forms_of(v@)),
    {
        MalType::Vector(v)
    }

    /// The hash map of the given keys and values in turn.
    pub fn hash_map(m: Vec<MalType>) -> (r: MalType)
        ensures
            r@ == Form::HashMap(forms_of(m@)),
    {
        MalType::HashMap(m)
    }
}

/// A copy of each item, in the same order.
fn copy_items(items: &Vec<MalType>) -> (out: Vec<MalType>)
    ensures
        forms_of(out@) == forms_of(items@),
    decreases items,
{
    let mut out: Vec<MalType> = Vec::new();
    let mut i: usize = 0;
    while i < items.len()
        invariant
            i <= items.len(),
            out.len() == i,
            forall|k: int| 0 <= k < i ==> out[k]@ == items[k]@,
        decreases items.len() - i,
    {
        out.push(items[i].clone());
        i += 1;
    }
    assert(forms_of(out@) =~= forms_of(items@));
    out
}

impl Clone for MalType {
    fn clone(&self) -> (res: Self)
        ensures
            res@ == self@,
        decreases self,
    {
        match self {
            MalType::Nil => MalType::Nil,
            MalType::Int(i) => MalType::Int(*i),
            MalType::String(s) => MalType::String(s.clone()),
            MalType::Bool(b) => MalType::Bool(*b),
            MalType::Symbol(s) => MalType::Symbol(s.clone()),
            MalType::List(items) => MalType::List(copy_items(items)),
            MalType::Vector(items) => MalType::Vector(copy_items(items)),
            MalType::HashMap(items) => MalType::HashMap(copy_items(items)),
        }
    }
}

} // verus!
