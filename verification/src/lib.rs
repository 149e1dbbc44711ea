//! The front end of a small Lisp: a reader from text to values, and a
//! printer from values back to text.

pub mod quux;
