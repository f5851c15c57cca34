//! Reference-counted handles to Python objects, checked against a model of
//! the interpreter's object table, and the expansion of the `#[class]`
//! attribute.
use vstd::prelude::*;

pub mod object_table;
pub mod python;
pub mod pyptr;
pub mod py_class;

verus! {

} // verus!
