# pyo3 handles and `#[class]` expansion, verified

`src/` is checked with Verus:

- `object_table.rs` — the interpreter state that handles point into: live
  objects with their reference counts and types, the type hierarchy, and the
  error indicator, with the operations on them (take and release a reference,
  allocate, type check, fetch and restore the pending exception).
- `python.rs` — the GIL token `Python<'p>`, `PyErr`, `PyDowncastError`, and the
  `PyTypeInfo` trait with its implementation for `PyObject`.
- `pyptr.rs` — the owned handles `PyPtr<T>` and `Py<'p, T>`: construction from
  owned and borrowed pointers, conversions, casts, and `drop`, each with the
  change it makes to the reference counts.
- `py_class.rs` — the expansion of `#[class]`: `#[token]` is taken off the
  fields, and the generated implementations are written as `quote` tokens.

`app/lib.rs` adapts a struct parsed by `syn` to the library's expansion and
prints the attributes that remain on the fields.
