//! The GIL token, the error types, and the type information of Python
//! classes.
use vstd::prelude::*;
use std::marker::PhantomData;
use crate::object_table::{ObjectTable, OBJECT_TYPE};

verus! {

/// Marker that the global interpreter lock is held for the lifetime `'p`.
#[derive(Clone, Copy)]
pub struct Python<'p> {
    _marker: PhantomData<&'p ()>,
}

impl<'p> Python<'p> {
    /// A token for a thread that holds the global interpreter lock.
    pub fn assume_gil_acquired() -> Python<'p> {
        Python { _marker: PhantomData }
    }
}

/// There is one GIL token per lifetime: any two tokens for `'p` are equal.
pub proof fn lemma_tokens_equal<'p>(a: Python<'p>, b: Python<'p>)
    ensures
        a == b,
{
    assert(a._marker == b._marker);
}

/// A Python exception.
#[derive(Debug, PartialEq, Eq, Structural)]
pub enum PyErr {
    /// Taken from the interpreter's error indicator: the exception object, or
    /// `None` when no exception was pending.
    Fetched(Option<usize>),
    /// A `TypeError` raised because an object had not the expected type.
    Downcast,
    /// A `MemoryError` raised because no object could be allocated.
    NoMemory,
}

/// The result of an operation that may raise a Python exception.
pub type PyResult<T> = Result<T, PyErr>;

impl PyErr {
    /// Takes the pending exception out of the interpreter's error indicator,
    /// which is then clear.
    pub fn fetch(_py: Python, objects: &mut ObjectTable) -> (e: PyErr)
        requires
            old(objects).wf(),
        ensures
            final(objects).wf(),
            e == PyErr::Fetched(old(objects).pending_error()),
            final(objects).pending_error() is None,
            final(objects).objects() == old(objects).objects(),
            final(objects).type_bases() == old(objects).type_bases(),
            final(objects).allocated() == old(objects).allocated(),
    {
        PyErr::Fetched(objects.fetch_error())
    }
}

/// An object was not of the type that a cast asked for.
pub struct PyDowncastError<'p>(pub Python<'p>, pub Option<&'static str>);

impl<'p> From<PyDowncastError<'p>> for PyErr {
    fn from(err: PyDowncastError<'p>) -> (e: PyErr) {
        PyErr::Downcast
    }
}

impl<'p> vstd::std_specs::convert::FromSpecImpl<PyDowncastError<'p>> for PyErr {
    open spec fn obeys_from_spec() -> bool {
        true
    }

    open spec fn from_spec(err: PyDowncastError<'p>) -> PyErr {
        PyErr::Downcast
    }
}

/// What the handles need to know of a Python class: the index of its type
/// object and where its Rust value starts inside an object.
pub trait PyTypeInfo {
    /// The index of the class's type object.
    const TYPE_OBJECT: usize;

    /// The distance in bytes from the start of an object to the class's value.
    const OFFSET: isize;

    /// The class's name.
    fn class_name() -> &'static str;

    fn type_object() -> (r: usize)
        ensures
            r == Self::TYPE_OBJECT,
    {
        Self::TYPE_OBJECT
    }

    fn offset() -> (r: isize)
        ensures
            r == Self::OFFSET,
    {
        Self::OFFSET
    }
}

/// The base of every Python object.
pub struct PyObject;

impl PyTypeInfo for PyObject {
    const TYPE_OBJECT: usize = OBJECT_TYPE;

    const OFFSET: isize = 0;

    fn class_name() -> (r: &'static str)
        ensures
            r@ == "PyObject"@,
    {
        "PyObject"
    }
}

/// `PyObject` is the root type `object`, and its value is the whole object.
pub proof fn lemma_py_object_info()
    ensures
        PyObject::TYPE_OBJECT == OBJECT_TYPE,
        PyObject::OFFSET == 0,
{
}

} // verus!
