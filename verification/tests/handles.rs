use pyo3::object_table::{ObjectState, ObjectTable, NULL, OBJECT_TYPE};
use pyo3::pyptr::{Py, PyPtr};
use pyo3::python::{PyErr, PyObject, PyTypeInfo, Python};

/// A class deriving from `object`, registered as type 1, whose value starts
/// 16 bytes into the object.
struct Point;

impl PyTypeInfo for Point {
    const TYPE_OBJECT: usize = 1;
    const OFFSET: isize = 16;

    fn class_name() -> &'static str {
        "Point"
    }
}

/// A table with `Point` registered as type 1.
fn table() -> ObjectTable {
    let mut t = ObjectTable::new();
    let p = t.add_type(OBJECT_TYPE);
    assert_eq!(p, 1);
    t
}

#[test]
fn new_table_is_empty() {
    let mut t = ObjectTable::new();
    assert_eq!(t.fetch_error(), None);
    assert!(t.room_left());
}

#[test]
fn alloc_gives_fresh_nonnull_addresses() {
    let mut t = table();
    let a = t.alloc_object(OBJECT_TYPE);
    let b = t.alloc_object(1);
    assert_ne!(a, NULL);
    assert_ne!(b, NULL);
    assert_ne!(a, b);
    assert_eq!(t.refcnt(a), 1);
    assert_eq!(t.object_type(b), 1);
}

#[test]
fn borrowed_ptr_takes_a_reference_and_drop_releases_it() {
    let mut t = table();
    let a = t.alloc_object(OBJECT_TYPE);
    let p: PyPtr<PyObject> = PyPtr::from_borrowed_ptr(&mut t, a);
    assert_eq!(p.get_refcnt(&t), 2);
    assert_eq!(p.as_ptr(), a);
    p.drop(&mut t);
    assert_eq!(t.refcnt(a), 1);
}

#[test]
fn owned_ptr_keeps_the_count() {
    let mut t = table();
    let a = t.alloc_object(OBJECT_TYPE);
    let p: PyPtr<PyObject> = PyPtr::from_owned_ptr(a);
    assert_eq!(p.get_refcnt(&t), 1);
    let q = p.into_object();
    assert_eq!(q.get_refcnt(&t), 1);
    assert_eq!(q.into_ptr(), a);
}

#[test]
fn dropping_the_last_reference_deallocates() {
    let py = Python::assume_gil_acquired();
    let mut t = table();
    let p: Py<Point> = Py::new(py, &mut t, Point).ok().unwrap();
    let a = p.as_ptr();
    assert_eq!(p.get_refcnt(&t), 1);
    assert_eq!(t.object_type(a), 1);
    p.drop(&mut t);
    // a further allocation gets another address
    let b = t.alloc_object(OBJECT_TYPE);
    assert_ne!(a, b);
}

#[test]
fn cast_to_a_class_the_object_is_not_fails() {
    let py = Python::assume_gil_acquired();
    let mut t = table();
    let a = t.alloc_object(OBJECT_TYPE);
    let r = Py::<Point>::cast_from_borrowed_ptr(py, &mut t, a);
    assert!(r.is_err());
    assert_eq!(t.refcnt(a), 1);
    let r = Py::<PyObject>::cast_from_borrowed_ptr(py, &mut t, a);
    assert!(r.is_ok());
    assert_eq!(t.refcnt(a), 2);
}

#[test]
fn null_result_fetches_the_pending_exception() {
    let py = Python::assume_gil_acquired();
    let mut t = table();
    let e = t.alloc_object(OBJECT_TYPE);
    t.restore_error(e);
    let r: Result<PyPtr<PyObject>, PyErr> = PyPtr::from_owned_ptr_or_err(py, &mut t, NULL);
    assert_eq!(r.err(), Some(PyErr::Fetched(Some(e))));
    assert_eq!(t.fetch_error(), None);
    let _ = ObjectState { refcnt: 1, type_id: 0 };
}

/// A class deriving from `Point`, registered as type 2.
struct Point3;

impl PyTypeInfo for Point3 {
    const TYPE_OBJECT: usize = 2;
    const OFFSET: isize = 24;

    fn class_name() -> &'static str {
        "Point3"
    }
}

fn table3() -> ObjectTable {
    let mut t = table();
    assert_eq!(t.add_type(1), 2);
    t
}

#[test]
fn subtypes_follow_the_base_chain() {
    let t = table3();
    assert!(t.type_is_subtype(2, 1));
    assert!(t.type_is_subtype(2, OBJECT_TYPE));
    assert!(t.type_is_subtype(1, 1));
    assert!(!t.type_is_subtype(1, 2));
    assert!(!t.type_is_subtype(OBJECT_TYPE, 1));
}

#[test]
fn cast_to_a_base_class_takes_a_reference() {
    let py = Python::assume_gil_acquired();
    let mut t = table3();
    let p: Py<Point3> = Py::new(py, &mut t, Point3).ok().unwrap();
    let a = p.as_ptr();
    let q = p.cast::<Point>(&mut t).ok().unwrap();
    assert_eq!(q.as_ptr(), a);
    assert_eq!(t.refcnt(a), 2);
    let r = q.cast::<Point3>(&mut t);
    assert!(r.is_ok());
    assert_eq!(t.refcnt(a), 3);
}

#[test]
fn failed_cast_leaves_the_count() {
    let py = Python::assume_gil_acquired();
    let mut t = table3();
    let p: Py<Point> = Py::new(py, &mut t, Point).ok().unwrap();
    let a = p.as_ptr();
    assert!(p.cast::<Point3>(&mut t).is_err());
    assert_eq!(t.refcnt(a), 1);
}

#[test]
fn cast_into_moves_the_reference_or_releases_it() {
    let py = Python::assume_gil_acquired();
    let mut t = table3();
    let a = t.alloc_object(1);
    t.incref(a);
    let p: Py<PyObject> = Py::from_owned_ptr(py, a);
    let q = p.cast_into::<Point>(&mut t).ok().unwrap();
    assert_eq!(q.as_ptr(), a);
    assert_eq!(t.refcnt(a), 2);
    let o: Py<PyObject> = q.into_object();
    assert!(o.cast_into::<Point3>(&mut t).is_err());
    assert_eq!(t.refcnt(a), 1);
}

#[test]
fn cast_from_owned_ptr_does_not_touch_the_count() {
    let py = Python::assume_gil_acquired();
    let t = table3();
    let mut t = t;
    let a = t.alloc_object(1);
    assert!(Py::<Point>::cast_from_owned_ptr(py, &t, a).is_ok());
    assert!(Py::<Point3>::cast_from_owned_ptr(py, &t, a).is_err());
    let p = Py::<Point>::cast_from_owned_ptr_or_panic(py, &t, a);
    assert_eq!(p.as_ptr(), a);
    assert_eq!(t.refcnt(a), 1);
}

#[test]
fn cast_from_owned_nullptr_reports_null_and_wrong_type() {
    let py = Python::assume_gil_acquired();
    let mut t = table3();
    let a = t.alloc_object(1);
    let r = Py::<Point>::cast_from_owned_nullptr(py, &mut t, NULL);
    assert_eq!(r.err(), Some(PyErr::Fetched(None)));
    let r = Py::<Point3>::cast_from_owned_nullptr(py, &mut t, a);
    assert_eq!(r.err(), Some(PyErr::Downcast));
    let r = Py::<Point>::cast_from_owned_nullptr(py, &mut t, a);
    assert_eq!(r.ok().map(|p| p.as_ptr()), Some(a));
}

#[test]
fn borrowed_ptr_opt_of_null_is_none() {
    let py = Python::assume_gil_acquired();
    let mut t = table();
    let a = t.alloc_object(OBJECT_TYPE);
    assert!(PyPtr::<PyObject>::from_borrowed_ptr_opt(py, &mut t, NULL).is_none());
    assert!(Py::<PyObject>::from_borrowed_ptr_opt(py, &mut t, NULL).is_none());
    let p = PyPtr::<PyObject>::from_borrowed_ptr_opt(py, &mut t, a).unwrap();
    let q = Py::<PyObject>::from_borrowed_ptr_opt(py, &mut t, a).unwrap();
    assert_eq!(p.as_ptr(), a);
    assert_eq!(q.as_ptr(), a);
    assert_eq!(t.refcnt(a), 3);
}

#[test]
fn handles_compare_by_identity() {
    let py = Python::assume_gil_acquired();
    let mut t = table();
    let a = t.alloc_object(OBJECT_TYPE);
    let b = t.alloc_object(OBJECT_TYPE);
    let p: PyPtr<PyObject> = PyPtr::from_owned_ptr(a);
    let p2 = p.clone_ref(&mut t);
    let q: PyPtr<PyObject> = PyPtr::from_owned_ptr(b);
    assert!(p == p2);
    assert!(p != q);
    assert_eq!(t.refcnt(a), 2);
    let x: Py<PyObject> = Py::from_owned_ptr(py, a);
    let y = x.clone_ref(&mut t);
    let z: Py<PyObject> = Py::from_owned_ptr(py, b);
    assert!(x == y);
    assert!(x != z);
    assert_eq!(t.refcnt(a), 3);
}

#[test]
fn gil_bound_and_free_handles_convert() {
    let py = Python::assume_gil_acquired();
    let mut t = table();
    let a = t.alloc_object(OBJECT_TYPE);
    let p: PyPtr<PyObject> = PyPtr::from_owned_ptr(a);
    let r = p.as_ref(py, &mut t);
    assert_eq!(t.refcnt(a), 2);
    let pp = r.as_pptr(&mut t);
    assert_eq!(t.refcnt(a), 3);
    let o = r.to_object(py, &mut t);
    assert_eq!(t.refcnt(a), 4);
    let c = r.clone(&mut t);
    assert_eq!(t.refcnt(a), 5);
    let back = pp.into_ref(py);
    assert_eq!(back.into_pptr().as_ptr(), a);
    assert_eq!(o.to_object(py, &mut t).into_ptr(), a);
    assert_eq!(t.refcnt(a), 6);
    assert_eq!(c.into_object_pptr().as_ptr(), a);
    let d: PyPtr<Point> = PyPtr::unchecked_downcast_from(p);
    assert_eq!(d.as_ptr(), a);
    let e: Py<Point> = Py::unchecked_downcast_from(r);
    assert_eq!(e.into_ptr(), a);
}

#[test]
fn value_addresses_use_the_class_offset() {
    let py = Python::assume_gil_acquired();
    let mut t = table3();
    let p: Py<Point3> = Py::new(py, &mut t, Point3).ok().unwrap();
    let a = p.as_ptr();
    assert_eq!(p.as_ref(), a + 24);
    assert_eq!(p.as_mut(), a + 24);
    assert_eq!(p.cast_as::<Point>(&t).ok(), Some(a + 16));
    assert_eq!(Py::<Point>::unchecked_downcast_borrow_from(&p), a + 16);
    let o: Py<PyObject> = Py::from_borrowed_ptr(py, &mut t, a);
    assert_eq!(o.as_ref(), a);
    let q: Py<Point> = Py::new(py, &mut t, Point).ok().unwrap();
    assert!(q.cast_as::<Point3>(&t).is_err());
}

#[test]
fn extract_a_handle_takes_a_reference() {
    let py = Python::assume_gil_acquired();
    let mut t = table3();
    let p: Py<Point3> = Py::new(py, &mut t, Point3).ok().unwrap();
    let a = p.as_ptr();
    let q: Py<Point> = p.extract(&mut t).ok().unwrap();
    assert_eq!(q.as_ptr(), a);
    assert_eq!(t.refcnt(a), 2);
    let b = t.alloc_object(OBJECT_TYPE);
    let o: Py<PyObject> = Py::from_borrowed_ptr(py, &mut t, b);
    let r: Result<Py<Point>, PyErr> = o.extract(&mut t);
    assert_eq!(r.err(), Some(PyErr::Downcast));
}

#[test]
fn borrowed_pointer_is_handed_to_the_closure() {
    let py = Python::assume_gil_acquired();
    let mut t = table();
    let a = t.alloc_object(OBJECT_TYPE);
    let p: PyPtr<PyObject> = PyPtr::from_owned_ptr(a);
    assert_eq!(p.with_borrowed_ptr(py, |x| x + 1), a + 1);
    let q: Py<PyObject> = Py::from_owned_ptr(py, a);
    assert_eq!(q.with_borrowed_ptr(py, |x| x * 2), a * 2);
    assert_eq!(q.get_refcnt(&t), 1);
    let _ = q.token();
}

#[test]
fn owned_ptr_or_err_passes_non_null() {
    let py = Python::assume_gil_acquired();
    let mut t = table();
    let a = t.alloc_object(OBJECT_TYPE);
    let p = Py::<PyObject>::from_owned_ptr_or_err(py, &mut t, a).ok().unwrap();
    assert_eq!(p.as_ptr(), a);
    let r = Py::<PyObject>::from_owned_ptr_or_err(py, &mut t, NULL);
    assert_eq!(r.err(), Some(PyErr::Fetched(None)));
    let q = PyPtr::<PyObject>::from_owned_ptr_or_panic(a);
    let s = Py::<PyObject>::from_owned_ptr_or_panic(py, a);
    assert_eq!(q.as_ptr(), s.as_ptr());
    assert_eq!(t.refcnt(a), 1);
}

#[test]
fn downcast_error_becomes_a_type_error() {
    let py = Python::assume_gil_acquired();
    let e: PyErr = pyo3::python::PyDowncastError(py, None).into();
    assert_eq!(e, PyErr::Downcast);
}

#[test]
fn fetch_takes_and_clears_the_indicator() {
    let py = Python::assume_gil_acquired();
    let mut t = table();
    let e = t.alloc_object(OBJECT_TYPE);
    t.restore_error(e);
    assert_eq!(PyErr::fetch(py, &mut t), PyErr::Fetched(Some(e)));
    assert_eq!(PyErr::fetch(py, &mut t), PyErr::Fetched(None));
    assert_eq!(t.refcnt(e), 1);
}

#[test]
fn py_object_type_information() {
    assert_eq!(PyObject::type_object(), OBJECT_TYPE);
    assert_eq!(PyObject::offset(), 0);
    assert_eq!(PyObject::class_name(), "PyObject");
    assert_eq!(Point::type_object(), 1);
}

#[test]
fn cloned_ptr_owns_its_own_reference() {
    let mut t = table();
    let a = t.alloc_object(OBJECT_TYPE);
    let p: PyPtr<PyObject> = PyPtr::from_owned_ptr(a);
    let q = p.clone_ref(&mut t);
    assert_eq!(t.refcnt(a), 2);
    q.drop(&mut t);
    assert_eq!(t.refcnt(a), 1);
    p.drop(&mut t);
    let b = t.alloc_object(OBJECT_TYPE);
    assert_ne!(a, b);
}
