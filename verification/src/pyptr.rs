//! Owned references to Python objects: `PyPtr<T>`, which may outlive the GIL
//! token, and `Py<'p, T>`, which is tied to it. Each handle stands for one
//! reference that it owns; `drop` releases it.
use vstd::prelude::*;
use std::marker::PhantomData;
use crate::object_table::{is_subtype, incref_model, decref_model, ObjectTable, NULL};
use vstd::std_specs::cmp::PartialEqSpec;
use crate::python::{PyDowncastError, PyErr, PyObject, PyResult, PyTypeInfo, Python};

verus! {

impl ObjectTable {
    /// `self` is `old` with one more reference taken to `a`.
    pub open spec fn is_incref_of(&self, old: ObjectTable, a: usize) -> bool {
        &&& self.wf()
        &&& self.objects() == incref_model(old.objects(), a)
        &&& self.type_bases() == old.type_bases()
        &&& self.pending_error() == old.pending_error()
        &&& self.allocated() == old.allocated()
    }

    /// `self` is `old` with one reference to `a` released.
    pub open spec fn is_decref_of(&self, old: ObjectTable, a: usize) -> bool {
        &&& self.wf()
        &&& self.objects() == decref_model(old.objects(), a)
        &&& self.type_bases() == old.type_bases()
        &&& self.pending_error() == old.pending_error()
        &&& self.allocated() == old.allocated()
    }

    /// A new reference to the live object at `a` can be taken.
    pub open spec fn can_incref(&self, a: usize) -> bool {
        &&& self.wf()
        &&& self.is_live(a)
        &&& self.refcnt_of(a) < usize::MAX
    }

    /// The live object at `a` is an instance of the type `tp`.
    pub open spec fn instance_of(&self, a: usize, tp: usize) -> bool {
        is_subtype(self.type_bases(), self.type_of(a), tp)
    }
}

/// The address of a value that starts `offset` bytes into the object at `ptr`.
fn value_address(ptr: usize, offset: isize) -> (r: usize)
    requires
        0 <= ptr + offset <= usize::MAX,
    ensures
        r == ptr + offset,
{
    if offset >= 0 {
        ptr + offset as usize
    } else {
        let back: i128 = 0i128 - offset as i128;
        ptr - back as usize
    }
}

/// An owned reference to a Python object of class `T`.
pub struct PyPtr<T> {
    inner: usize,
    _t: PhantomData<T>,
}

impl<T> PyPtr<T> {
    /// The address of the object.
    pub closed spec fn addr(&self) -> usize {
        self.inner
    }

    /// Takes over the reference that `ptr` owns; the count is left as it is.
    pub fn from_owned_ptr(ptr: usize) -> (r: PyPtr<T>)
        requires
            ptr != NULL,
        ensures
            r.addr() == ptr,
    {
        PyPtr { inner: ptr, _t: PhantomData }
    }

    /// Takes over the reference that a call returned; a null result means the
    /// call raised, and the pending exception is returned instead.
    pub fn from_owned_ptr_or_err(py: Python, objects: &mut ObjectTable, ptr: usize) -> (r: PyResult<
        PyPtr<T>,
    >)
        requires
            old(objects).wf(),
        ensures
            final(objects).wf(),
            ptr == NULL ==> {
                &&& r matches Err(e) && e == PyErr::Fetched(old(objects).pending_error())
                &&& final(objects).pending_error() is None
                &&& final(objects).objects() == old(objects).objects()
                &&& final(objects).type_bases() == old(objects).type_bases()
                &&& final(objects).allocated() == old(objects).allocated()
            },
            ptr != NULL ==> (r matches Ok(p) && p.addr() == ptr && *final(objects) == *old(objects)),
    {
        if ptr == NULL {
            Err(PyErr::fetch(py, objects))
        } else {
            Ok(PyPtr::from_owned_ptr(ptr))
        }
    }

    /// Takes over the reference that `ptr` owns, which must not be null.
    pub fn from_owned_ptr_or_panic(ptr: usize) -> (r: PyPtr<T>)
        requires
            ptr != NULL,
        ensures
            r.addr() == ptr,
    {
        PyPtr::from_owned_ptr(ptr)
    }

    /// Takes a new reference to the object at `ptr`.
    pub fn from_borrowed_ptr(objects: &mut ObjectTable, ptr: usize) -> (r: PyPtr<T>)
        requires
            old(objects).can_incref(ptr),
        ensures
            r.addr() == ptr,
            final(objects).is_incref_of(*old(objects), ptr),
    {
        objects.incref(ptr);
        PyPtr { inner: ptr, _t: PhantomData }
    }

    /// Takes a new reference to the object at `ptr`, or gives `None` for a
    /// null `ptr`.
    pub fn from_borrowed_ptr_opt(_py: Python, objects: &mut ObjectTable, ptr: usize) -> (r: Option<
        PyPtr<T>,
    >)
        requires
            ptr != NULL ==> old(objects).can_incref(ptr),
            old(objects).wf(),
        ensures
            ptr == NULL ==> r is None && *final(objects) == *old(objects),
            ptr != NULL ==> (r matches Some(p) && p.addr() == ptr && final(objects).is_incref_of(
                *old(objects),
                ptr,
            )),
    {
        if ptr == NULL {
            None
        } else {
            objects.incref(ptr);
            Some(PyPtr { inner: ptr, _t: PhantomData })
        }
    }

    /// A GIL-bound handle to the same object, with a reference of its own.
    pub fn as_ref<'p>(&self, py: Python<'p>, objects: &mut ObjectTable) -> (r: Py<'p, T>)
        requires
            old(objects).can_incref(self.addr()),
        ensures
            r.addr() == self.addr(),
            r.token_spec() == py,
            final(objects).is_incref_of(*old(objects), self.addr()),
    {
        Py::from_borrowed_ptr(py, objects, self.inner)
    }

    /// Moves the reference into a GIL-bound handle.
    pub fn into_ref<'p>(self, py: Python<'p>) -> (r: Py<'p, T>)
        ensures
            r.addr() == self.addr(),
            r.token_spec() == py,
    {
        Py { inner: self.inner, _t: PhantomData, py: py }
    }

    /// Moves the reference into a handle to a plain object.
    pub fn into_object(self) -> (r: PyPtr<PyObject>)
        ensures
            r.addr() == self.addr(),
    {
        PyPtr { inner: self.inner, _t: PhantomData }
    }

    /// The reference count of the object.
    pub fn get_refcnt(&self, objects: &ObjectTable) -> (r: usize)
        requires
            objects.wf(),
            objects.is_live(self.addr()),
        ensures
            r == objects.refcnt_of(self.addr()),
    {
        objects.refcnt(self.inner)
    }

    /// A second handle to the same object, with a reference of its own.
    pub fn clone_ref(&self, objects: &mut ObjectTable) -> (r: PyPtr<T>)
        requires
            old(objects).can_incref(self.addr()),
        ensures
            r.addr() == self.addr(),
            final(objects).is_incref_of(*old(objects), self.addr()),
    {
        objects.incref(self.inner);
        PyPtr { inner: self.inner, _t: PhantomData }
    }

    /// Moves the reference of a handle to an `S` into a handle to a `T`,
    /// without checking the object's type.
    pub fn unchecked_downcast_from<S>(py: PyPtr<S>) -> (r: PyPtr<T>)
        ensures
            r.addr() == py.addr(),
    {
        PyPtr { inner: py.inner, _t: PhantomData }
    }

    /// The address of the object; the reference stays with the handle.
    pub fn as_ptr(&self) -> (r: usize)
        ensures
            r == self.addr(),
    {
        self.inner
    }

    /// The address of the object, whose reference the caller now owns.
    pub fn into_ptr(self) -> (r: usize)
        ensures
            r == self.addr(),
    {
        self.inner
    }

    /// A handle to the object as a plain object, with a reference of its own.
    pub fn to_object(&self, _py: Python, objects: &mut ObjectTable) -> (r: PyPtr<PyObject>)
        requires
            old(objects).can_incref(self.addr()),
        ensures
            r.addr() == self.addr(),
            final(objects).is_incref_of(*old(objects), self.addr()),
    {
        PyPtr::from_borrowed_ptr(objects, self.inner)
    }

    /// Calls `f` with the address of the object, which stays owned by the
    /// handle.
    pub fn with_borrowed_ptr<F, R>(&self, _py: Python, f: F) -> (r: R) where F: FnOnce(usize) -> R
        requires
            f.requires((self.addr(),)),
        ensures
            f.ensures((self.addr(),), r),
    {
        f(self.inner)
    }

    /// Releases the reference that the handle owns.
    pub fn drop(self, objects: &mut ObjectTable)
        requires
            old(objects).wf(),
            old(objects).is_live(self.addr()),
        ensures
            final(objects).is_decref_of(*old(objects), self.addr()),
    {
        objects.decref(self.inner);
    }
}

/// Handles are equal when they refer to the same object.
impl<T> PartialEq for PyPtr<T> {
    fn eq(&self, o: &PyPtr<T>) -> (r: bool) {
        self.inner == o.inner
    }
}

impl<T> vstd::std_specs::cmp::PartialEqSpecImpl for PyPtr<T> {
    open spec fn obeys_eq_spec() -> bool {
        true
    }

    open spec fn eq_spec(&self, o: &PyPtr<T>) -> bool {
        self.addr() == o.addr()
    }
}

/// An owned reference to a Python object of class `T`, usable while the GIL
/// token `'p` lives.
pub struct Py<'p, T> {
    pub inner: usize,
    _t: PhantomData<T>,
    py: Python<'p>,
}

impl<'p, T> Py<'p, T> {
    /// The address of the object.
    pub closed spec fn addr(&self) -> usize {
        self.inner
    }

    /// Takes over the reference that `ptr` owns; the count is left as it is.
    pub fn from_owned_ptr(py: Python<'p>, ptr: usize) -> (r: Py<'p, T>)
        requires
            ptr != NULL,
        ensures
            r.addr() == ptr,
            r.token_spec() == py,
    {
        Py { inner: ptr, _t: PhantomData, py: py }
    }

    /// Takes over the reference that `ptr` owns, which must not be null.
    pub fn from_owned_ptr_or_panic(py: Python<'p>, ptr: usize) -> (r: Py<'p, T>)
        requires
            ptr != NULL,
        ensures
            r.addr() == ptr,
            r.token_spec() == py,
    {
        Py::from_owned_ptr(py, ptr)
    }

    /// Takes over the reference that a call returned; a null result means the
    /// call raised, and the pending exception is returned instead.
    pub fn from_owned_ptr_or_err(py: Python<'p>, objects: &mut ObjectTable, ptr: usize) -> (r:
        PyResult<Py<'p, T>>)
        requires
            old(objects).wf(),
        ensures
            final(objects).wf(),
            ptr == NULL ==> {
                &&& r matches Err(e) && e == PyErr::Fetched(old(objects).pending_error())
                &&& final(objects).pending_error() is None
                &&& final(objects).objects() == old(objects).objects()
                &&& final(objects).type_bases() == old(objects).type_bases()
                &&& final(objects).allocated() == old(objects).allocated()
            },
            ptr != NULL ==> (r matches Ok(p) && p.addr() == ptr && p.token_spec() == py
                && *final(objects) == *old(objects)),
    {
        if ptr == NULL {
            Err(PyErr::fetch(py, objects))
        } else {
            Ok(Py::from_owned_ptr(py, ptr))
        }
    }

    /// Takes a new reference to the object at `ptr`.
    pub fn from_borrowed_ptr(py: Python<'p>, objects: &mut ObjectTable, ptr: usize) -> (r: Py<'p, T>)
        requires
            old(objects).can_incref(ptr),
        ensures
            r.addr() == ptr,
            r.token_spec() == py,
            final(objects).is_incref_of(*old(objects), ptr),
    {
        objects.incref(ptr);
        Py { inner: ptr, _t: PhantomData, py: py }
    }

    /// Takes a new reference to the object at `ptr`, or gives `None` for a
    /// null `ptr`.
    pub fn from_borrowed_ptr_opt(py: Python<'p>, objects: &mut ObjectTable, ptr: usize) -> (r: Option<
        Py<'p, T>,
    >)
        requires
            ptr != NULL ==> old(objects).can_incref(ptr),
            old(objects).wf(),
        ensures
            ptr == NULL ==> r is None && *final(objects) == *old(objects),
            ptr != NULL ==> (r matches Some(p) && p.addr() == ptr && p.token_spec() == py
                && final(objects).is_incref_of(*old(objects), ptr)),
    {
        if ptr == NULL {
            None
        } else {
            objects.incref(ptr);
            Some(Py { inner: ptr, _t: PhantomData, py: py })
        }
    }

    /// The reference count of the object.
    pub fn get_refcnt(&self, objects: &ObjectTable) -> (r: usize)
        requires
            objects.wf(),
            objects.is_live(self.addr()),
        ensures
            r == objects.refcnt_of(self.addr()),
    {
        objects.refcnt(self.inner)
    }

    /// A handle that may outlive the GIL token, with a reference of its own.
    pub fn as_pptr(&self, objects: &mut ObjectTable) -> (r: PyPtr<T>)
        requires
            old(objects).can_incref(self.addr()),
        ensures
            r.addr() == self.addr(),
            final(objects).is_incref_of(*old(objects), self.addr()),
    {
        objects.incref(self.inner);
        PyPtr { inner: self.inner, _t: PhantomData }
    }

    /// Moves the reference into a handle that may outlive the GIL token.
    pub fn into_pptr(self) -> (r: PyPtr<T>)
        ensures
            r.addr() == self.addr(),
    {
        PyPtr { inner: self.inner, _t: PhantomData }
    }

    /// Moves the reference into a handle to a plain object that may outlive
    /// the GIL token.
    pub fn into_object_pptr(self) -> (r: PyPtr<PyObject>)
        ensures
            r.addr() == self.addr(),
    {
        PyPtr { inner: self.inner, _t: PhantomData }
    }

    /// Moves the reference into a handle to a plain object.
    pub fn into_object(self) -> (r: Py<'p, PyObject>)
        ensures
            r.addr() == self.addr(),
            r.token_spec() == self.token_spec(),
    {
        Py { inner: self.inner, _t: PhantomData, py: self.py }
    }

    /// Moves the reference of a handle to an `S` into a handle to a `T`,
    /// without checking the object's type.
    pub fn unchecked_downcast_from<'a, S>(ob: Py<'a, S>) -> (r: Py<'a, T>)
        ensures
            r.addr() == ob.addr(),
            r.token_spec() == ob.token_spec(),
    {
        Py { inner: ob.inner, _t: PhantomData, py: ob.py }
    }

    /// A second handle to the same object, with a reference of its own.
    pub fn clone_ref(&self, objects: &mut ObjectTable) -> (r: Py<'p, T>)
        requires
            old(objects).can_incref(self.addr()),
        ensures
            r.addr() == self.addr(),
            r.token_spec() == self.token_spec(),
            final(objects).is_incref_of(*old(objects), self.addr()),
    {
        objects.incref(self.inner);
        Py { inner: self.inner, _t: PhantomData, py: self.py }
    }

    /// A second handle to the same object, with a reference of its own.
    pub fn clone(&self, objects: &mut ObjectTable) -> (r: Py<'p, T>)
        requires
            old(objects).can_incref(self.addr()),
        ensures
            r.addr() == self.addr(),
            r.token_spec() == self.token_spec(),
            final(objects).is_incref_of(*old(objects), self.addr()),
    {
        objects.incref(self.inner);
        Py { inner: self.inner, _t: PhantomData, py: self.py }
    }

    pub closed spec fn token_spec(&self) -> Python<'p> {
        self.py
    }

    /// The GIL token that the handle is tied to.
    pub fn token<'a>(&'a self) -> (r: Python<'p>)
        ensures
            r == self.token_spec(),
    {
        self.py
    }

    /// The address of the object; the reference stays with the handle.
    pub fn as_ptr(&self) -> (r: usize)
        ensures
            r == self.addr(),
    {
        self.inner
    }

    /// The address of the object, whose reference the caller now owns.
    pub fn into_ptr(self) -> (r: usize)
        ensures
            r == self.addr(),
    {
        self.inner
    }

    /// A handle to the object as a plain object, with a reference of its own.
    pub fn to_object(&self, _py: Python, objects: &mut ObjectTable) -> (r: PyPtr<PyObject>)
        requires
            old(objects).can_incref(self.addr()),
        ensures
            r.addr() == self.addr(),
            final(objects).is_incref_of(*old(objects), self.addr()),
    {
        PyPtr::from_borrowed_ptr(objects, self.inner)
    }

    /// Calls `f` with the address of the object, which stays owned by the
    /// handle.
    pub fn with_borrowed_ptr<F, R>(&self, _py: Python, f: F) -> (r: R) where F: FnOnce(usize) -> R
        requires
            f.requires((self.addr(),)),
        ensures
            f.ensures((self.addr(),), r),
    {
        f(self.inner)
    }

    /// Releases the reference that the handle owns.
    pub fn drop(self, objects: &mut ObjectTable)
        requires
            old(objects).wf(),
            old(objects).is_live(self.addr()),
        ensures
            final(objects).is_decref_of(*old(objects), self.addr()),
    {
        objects.decref(self.inner);
    }
}

impl<'p, T: PyTypeInfo> Py<'p, T> {
    /// Creates a new object of class `T` whose one reference the handle owns;
    /// when no object can be allocated, a `MemoryError` is raised instead.
    /// The object's Rust value is not kept in the table.
    pub fn new(py: Python<'p>, objects: &mut ObjectTable, value: T) -> (r: PyResult<Py<'p, T>>)
        requires
            old(objects).wf(),
            old(objects).is_type(T::TYPE_OBJECT),
        ensures
            final(objects).wf(),
            old(objects).has_room() ==> (r matches Ok(p) && {
                &&& !old(objects).is_live(p.addr())
                &&& p.addr() != NULL
                &&& p.token_spec() == py
                &&& final(objects).allocated() == old(objects).allocated() + 1
                &&& final(objects).objects() == old(objects).objects().insert(
                    p.addr(),
                    crate::object_table::ObjectState { refcnt: 1, type_id: T::TYPE_OBJECT },
                )
            }),
            !old(objects).has_room() ==> (r matches Err(e) && e == PyErr::NoMemory && *final(objects)
                == *old(objects)),
            final(objects).type_bases() == old(objects).type_bases(),
            final(objects).pending_error() == old(objects).pending_error(),
    {
        if !objects.room_left() {
            return Err(PyErr::NoMemory);
        }
        let tp: usize = T::type_object();
        let ob: usize = objects.alloc_object(tp);
        Ok(Py { inner: ob, _t: PhantomData, py: py })
    }

    /// Takes a new reference to the object at `ptr` when it is an instance of
    /// `T`.
    pub fn cast_from_borrowed_ptr(py: Python<'p>, objects: &mut ObjectTable, ptr: usize) -> (r:
        Result<Py<'p, T>, PyDowncastError<'p>>)
        requires
            old(objects).can_incref(ptr),
        ensures
            old(objects).instance_of(ptr, T::TYPE_OBJECT) ==> (r matches Ok(p) && p.addr() == ptr
                && p.token_spec() == py && final(objects).is_incref_of(*old(objects), ptr)),
            !old(objects).instance_of(ptr, T::TYPE_OBJECT) ==> (r matches Err(e) && e.0 == py
                && e.1 is None) && *final(objects) == *old(objects),
    {
        let checked = objects.type_check(ptr, T::type_object());
        if checked {
            Ok(Py::from_borrowed_ptr(py, objects, ptr))
        } else {
            Err(PyDowncastError(py, None))
        }
    }

    /// Takes over the reference that `ptr` owns when it is an instance of `T`;
    /// otherwise the reference stays with the caller.
    pub fn cast_from_owned_ptr(py: Python<'p>, objects: &ObjectTable, ptr: usize) -> (r: Result<
        Py<'p, T>,
        PyDowncastError<'p>,
    >)
        requires
            objects.wf(),
            objects.is_live(ptr),
        ensures
            objects.instance_of(ptr, T::TYPE_OBJECT) ==> (r matches Ok(p) && p.addr() == ptr
                && p.token_spec() == py),
            !objects.instance_of(ptr, T::TYPE_OBJECT) ==> (r matches Err(e) && e.0 == py && e.1
                is None),
    {
        let checked = objects.type_check(ptr, T::type_object());
        if checked {
            proof {
                objects.lemma_wf();
            }
            Ok(Py::from_owned_ptr(py, ptr))
        } else {
            Err(PyDowncastError(py, None))
        }
    }

    /// Takes over the reference that `ptr` owns, which must be an instance of
    /// `T`.
    pub fn cast_from_owned_ptr_or_panic(py: Python<'p>, objects: &ObjectTable, ptr: usize) -> (r: Py<
        'p,
        T,
    >)
        requires
            objects.wf(),
            objects.is_live(ptr),
            objects.instance_of(ptr, T::TYPE_OBJECT),
        ensures
            r.addr() == ptr,
            r.token_spec() == py,
    {
        proof {
            objects.lemma_wf();
        }
        Py::from_owned_ptr(py, ptr)
    }

    /// Takes over the reference that a call returned: a null result means the
    /// call raised and gives the pending exception; an object that is not an
    /// instance of `T` gives a `TypeError`.
    pub fn cast_from_owned_nullptr(py: Python<'p>, objects: &mut ObjectTable, ptr: usize) -> (r:
        PyResult<Py<'p, T>>)
        requires
            old(objects).wf(),
            ptr != NULL ==> old(objects).is_live(ptr),
        ensures
            final(objects).wf(),
            ptr == NULL ==> {
                &&& r matches Err(e) && e == PyErr::Fetched(old(objects).pending_error())
                &&& final(objects).pending_error() is None
                &&& final(objects).objects() == old(objects).objects()
                &&& final(objects).type_bases() == old(objects).type_bases()
                &&& final(objects).allocated() == old(objects).allocated()
            },
            ptr != NULL ==> *final(objects) == *old(objects),
            ptr != NULL && old(objects).instance_of(ptr, T::TYPE_OBJECT) ==> (r matches Ok(p)
                && p.addr() == ptr && p.token_spec() == py),
            ptr != NULL && !old(objects).instance_of(ptr, T::TYPE_OBJECT) ==> (r matches Err(e) && e
                == PyErr::Downcast),
    {
        if ptr == NULL {
            Err(PyErr::fetch(py, objects))
        } else {
            match Py::cast_from_owned_ptr(py, objects, ptr) {
                Ok(p) => Ok(p),
                Err(e) => Err(PyErr::from(e)),
            }
        }
    }

    /// The address of the object's `T` value.
    pub fn as_ref(&self) -> (r: usize)
        requires
            0 <= self.addr() + T::OFFSET <= usize::MAX,
        ensures
            r == self.addr() + T::OFFSET,
    {
        value_address(self.inner, T::offset())
    }

    /// The address of the object's `T` value, for writing.
    pub fn as_mut(&self) -> (r: usize)
        requires
            0 <= self.addr() + T::OFFSET <= usize::MAX,
        ensures
            r == self.addr() + T::OFFSET,
    {
        value_address(self.inner, T::offset())
    }

    /// A handle to the object as a `D`, with a reference of its own, when the
    /// object is an instance of `D`.
    pub fn cast<D: PyTypeInfo>(&self, objects: &mut ObjectTable) -> (r: Result<
        Py<'p, D>,
        PyDowncastError<'p>,
    >)
        requires
            old(objects).can_incref(self.addr()),
        ensures
            old(objects).instance_of(self.addr(), D::TYPE_OBJECT) ==> (r matches Ok(p) && p.addr()
                == self.addr() && p.token_spec() == self.token_spec() && final(objects).is_incref_of(
                *old(objects),
                self.addr(),
            )),
            !old(objects).instance_of(self.addr(), D::TYPE_OBJECT) ==> (r matches Err(e) && e.0
                == self.token_spec() && e.1 is None) && *final(objects) == *old(objects),
    {
        let checked = objects.type_check(self.inner, D::type_object());
        if checked {
            Ok(Py::<D>::unchecked_downcast_from(self.clone_ref(objects)))
        } else {
            Err(PyDowncastError(self.py, None))
        }
    }

    /// Moves the reference into a handle to a `D` when the object is an
    /// instance of `D`; otherwise the reference is released.
    pub fn cast_into<D: PyTypeInfo>(self, objects: &mut ObjectTable) -> (r: Result<
        Py<'p, D>,
        PyDowncastError<'p>,
    >)
        requires
            old(objects).wf(),
            old(objects).is_live(self.addr()),
        ensures
            old(objects).instance_of(self.addr(), D::TYPE_OBJECT) ==> (r matches Ok(p) && p.addr()
                == self.addr() && p.token_spec() == self.token_spec() && *final(objects)
                == *old(objects)),
            !old(objects).instance_of(self.addr(), D::TYPE_OBJECT) ==> (r matches Err(e) && e.0
                == self.token_spec() && e.1 is None) && final(objects).is_decref_of(
                *old(objects),
                self.addr(),
            ),
    {
        let checked = objects.type_check(self.inner, D::type_object());
        if checked {
            Ok(Py::<D>::unchecked_downcast_from(self))
        } else {
            let py = self.py;
            self.drop(objects);
            Err(PyDowncastError(py, None))
        }
    }

    /// The address of the object's `D` value when the object is an instance
    /// of `D`.
    pub fn cast_as<D: PyTypeInfo>(&'p self, objects: &ObjectTable) -> (r: Result<
        usize,
        PyDowncastError<'p>,
    >)
        requires
            objects.wf(),
            objects.is_live(self.addr()),
            objects.instance_of(self.addr(), D::TYPE_OBJECT) ==> 0 <= self.addr()
                + D::OFFSET <= usize::MAX,
        ensures
            objects.instance_of(self.addr(), D::TYPE_OBJECT) ==> r == Ok::<
                usize,
                PyDowncastError<'p>,
            >((self.addr() + D::OFFSET) as usize),
            !objects.instance_of(self.addr(), D::TYPE_OBJECT) ==> (r matches Err(e) && e.0
                == self.token_spec() && e.1 is None),
    {
        let checked = objects.type_check(self.inner, D::type_object());
        if checked {
            Ok(value_address(self.inner, D::offset()))
        } else {
            Err(PyDowncastError(self.token(), None))
        }
    }

    /// The address of the `T` value inside the object that `py` refers to,
    /// without checking the object's type.
    pub fn unchecked_downcast_borrow_from<'a, S>(py: &'a Py<'a, S>) -> (r: usize)
        requires
            0 <= py.addr() + T::OFFSET <= usize::MAX,
        ensures
            r == py.addr() + T::OFFSET,
    {
        value_address(py.inner, T::offset())
    }

    /// Extracts a `D` from the object, as `D`'s `FromPyObject` implementation
    /// does.
    pub fn extract<D>(&'p self, objects: &mut ObjectTable) -> (r: PyResult<D>) where
        D: FromPyObject<'p>,

        requires
            old(objects).can_incref(self.addr()),
        ensures
            final(objects).wf(),
            D::extracts(self.token_spec(), self.addr(), *old(objects), *final(objects), r),
    {
        D::extract_object(self, objects)
    }
}

/// Values that can be extracted from a Python object.
pub trait FromPyObject<'source>: Sized {
    /// What extracting a value from the object at `addr`, through a handle
    /// tied to the GIL token `py`, does: `before` and `after` are the object
    /// table around the extraction, `r` its result.
    spec fn extracts(
        py: Python<'source>,
        addr: usize,
        before: ObjectTable,
        after: ObjectTable,
        r: PyResult<Self>,
    ) -> bool;

    fn extract_object<S: PyTypeInfo>(py: &'source Py<'source, S>, objects: &mut ObjectTable) -> (r: PyResult<
        Self,
    >)
        requires
            old(objects).can_incref(py.addr()),
        ensures
            final(objects).wf(),
            Self::extracts(py.token_spec(), py.addr(), *old(objects), *final(objects), r),
    ;
}

/// A handle is extracted from an object of its class by taking a new
/// reference to it.
impl<'source, T: PyTypeInfo> FromPyObject<'source> for Py<'source, T> {
    open spec fn extracts(
        py: Python<'source>,
        addr: usize,
        before: ObjectTable,
        after: ObjectTable,
        r: PyResult<Py<'source, T>>,
    ) -> bool {
        &&& before.instance_of(addr, T::TYPE_OBJECT) ==> (r matches Ok(p) && p.addr() == addr
            && p.token_spec() == py && after.is_incref_of(before, addr))
        &&& !before.instance_of(addr, T::TYPE_OBJECT) ==> (r matches Err(e) && e == PyErr::Downcast
            && after == before)
    }

    fn extract_object<S: PyTypeInfo>(py: &'source Py<'source, S>, objects: &mut ObjectTable) -> (r: PyResult<
        Py<'source, T>,
    >)
        ensures
            old(objects).instance_of(py.addr(), T::TYPE_OBJECT) ==> (r matches Ok(p) && p.addr()
                == py.addr() && final(objects).is_incref_of(*old(objects), py.addr())),
            !old(objects).instance_of(py.addr(), T::TYPE_OBJECT) ==> (r matches Err(e) && e
                == PyErr::Downcast && *final(objects) == *old(objects)),
    {
        let checked = objects.type_check(py.inner, T::type_object());
        if checked {
            Ok(Py::<T>::from_borrowed_ptr(py.token(), objects, py.as_ptr()))
        } else {
            Err(PyErr::from(PyDowncastError(py.token(), None)))
        }
    }
}

/// Handles are equal when they refer to the same object.
impl<'p, T> PartialEq for Py<'p, T> {
    fn eq(&self, o: &Py<'p, T>) -> (r: bool) {
        self.as_ptr() == o.as_ptr()
    }
}

impl<'p, T> vstd::std_specs::cmp::PartialEqSpecImpl for Py<'p, T> {
    open spec fn obeys_eq_spec() -> bool {
        true
    }

    open spec fn eq_spec(&self, o: &Py<'p, T>) -> bool {
        self.addr() == o.addr()
    }
}


/// Taking a reference to an object (`from_borrowed_ptr`, `clone_ref`,
/// `as_pptr`, `to_object`, a successful `cast`) and then dropping the handle
/// leaves the interpreter as it was.
pub proof fn lemma_borrow_then_drop(t0: ObjectTable, t1: ObjectTable, t2: ObjectTable, a: usize)
    requires
        t0.can_incref(a),
        t1.is_incref_of(t0, a),
        t2.is_decref_of(t1, a),
    ensures
        t2.objects() == t0.objects(),
        t2.type_bases() == t0.type_bases(),
        t2.pending_error() == t0.pending_error(),
{
    t0.lemma_wf();
    crate::object_table::lemma_incref_then_decref(t0.objects(), a);
}

/// Every live object is an instance of `PyObject`, so a cast to it always
/// succeeds.
pub proof fn lemma_every_object_is_py_object(t: ObjectTable, a: usize)
    requires
        t.wf(),
        t.is_live(a),
    ensures
        t.instance_of(a, PyObject::TYPE_OBJECT),
{
    t.lemma_wf();
    crate::object_table::lemma_every_type_is_object(&t, t.type_of(a));
    crate::python::lemma_py_object_info();
}


/// Dropping the last handle to an object deallocates it; dropping one of
/// several handles leaves it live with one reference fewer.
pub proof fn lemma_drop_releases(t0: ObjectTable, t1: ObjectTable, a: usize)
    requires
        t0.wf(),
        t0.is_live(a),
        t1.is_decref_of(t0, a),
    ensures
        t0.refcnt_of(a) == 1 ==> !t1.is_live(a),
        t0.refcnt_of(a) > 1 ==> t1.is_live(a) && t1.refcnt_of(a) == t0.refcnt_of(a) - 1,
        forall|b: usize| b != a ==> (#[trigger] t1.is_live(b) == t0.is_live(b)),
{
    t0.lemma_wf();
    crate::object_table::lemma_release_reference(t0.objects(), a);
}

/// Two handles compare equal exactly when they refer to the same object.
pub proof fn lemma_ptr_eq_is_identity<T>(p: PyPtr<T>, q: PyPtr<T>)
    ensures
        <PyPtr<T> as PartialEqSpec>::obeys_eq_spec(),
        p.eq_spec(&q) <==> p.addr() == q.addr(),
        p.eq_spec(&q) <==> q.eq_spec(&p),
{
}

/// Two GIL-bound handles compare equal exactly when they refer to the same
/// object.
pub proof fn lemma_py_eq_is_identity<'p, T>(p: Py<'p, T>, q: Py<'p, T>)
    ensures
        <Py<'p, T> as PartialEqSpec>::obeys_eq_spec(),
        p.eq_spec(&q) <==> p.addr() == q.addr(),
        p.eq_spec(&q) <==> q.eq_spec(&p),
{
}

} // verus!
