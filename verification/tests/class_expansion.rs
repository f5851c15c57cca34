use pyo3::py_class::{
    build_py_class, impl_class, impl_class_tokens, strip_token_fields, ClassBody, ClassDef,
    ClassField, FieldAttribute,
};

const TYPE_INFO_FOO: &str = "impl _pyo3 :: typeob :: PyTypeInfo for Foo { type Type = Foo ; \
# [ inline ] fn size ( ) -> usize { Self :: offset ( ) as usize + std :: mem :: size_of :: < Foo > ( ) } \
# [ inline ] fn offset ( ) -> isize { let align = std :: mem :: align_of :: < Foo > ( ) ; \
let bs = < _pyo3::PyObject as _pyo3 :: typeob :: PyTypeInfo > :: size ( ) ; \
( ( bs + align - 1 ) / align * align ) as isize } \
# [ inline ] fn type_name ( ) -> & 'static str { \"Foo\" } \
# [ inline ] fn type_object ( ) -> & 'static mut _pyo3 :: ffi :: PyTypeObject { \
static mut TYPE_OBJECT : _pyo3 :: ffi :: PyTypeObject = _pyo3 :: ffi :: PyTypeObject_INIT ; \
unsafe { & mut TYPE_OBJECT } } }";

const TOKEN_IMPLS_FOO_PY: &str = "impl _pyo3 :: python :: PythonObjectWithToken for Foo { \
fn token < 'p > ( & 'p self ) -> _pyo3 :: python :: Python < 'p > { self . py . token ( ) } } \
impl std :: fmt :: Debug for Foo { fn fmt ( & self , f : & mut std :: fmt :: Formatter ) -> \
Result < ( ) , std :: fmt :: Error > { let ptr = < Foo as _pyo3 :: python :: ToPythonPointer > :: as_ptr ( self ) ; \
let repr = unsafe { _pyo3 :: Py :: < _pyo3 :: PyString > :: cast_from_owned_nullptr ( self . token ( ) , \
_pyo3 :: ffi :: PyObject_Repr ( ptr ) ) . map_err ( | _ | std :: fmt :: Error ) ? } ; \
f . write_str ( & repr . to_string_lossy ( ) ) } } \
impl std :: fmt :: Display for Foo { fn fmt ( & self , f : & mut std :: fmt :: Formatter ) -> \
Result < ( ) , std :: fmt :: Error > { let ptr = < Foo as _pyo3 :: python :: ToPythonPointer > :: as_ptr ( self ) ; \
let s = unsafe { _pyo3 :: Py :: < _pyo3 :: PyString > :: cast_from_owned_nullptr ( self . token ( ) , \
_pyo3 :: ffi :: PyObject_Str ( ptr ) ) . map_err ( | _ | std :: fmt :: Error ) ? } ; \
f . write_str ( & s . to_string_lossy ( ) ) } }";

const WRAPPER_HEAD: &str = "# [ feature ( specialization ) ] # [ allow ( non_upper_case_globals , \
unused_attributes , unused_qualifications , unused_variables , non_camel_case_types ) ] const";

const WRAPPER_MIDDLE: &str =
    ": ( ) = { extern crate pyo3 as _pyo3 ; use std ; use pyo3 :: python :: PythonObjectWithToken ;";

fn word(w: &str, id: u32) -> FieldAttribute<u32> {
    FieldAttribute { word: Some(w.to_string()), attr: id }
}

fn other(id: u32) -> FieldAttribute<u32> {
    FieldAttribute { word: None, attr: id }
}

fn field(name: &str, attrs: Vec<FieldAttribute<u32>>) -> ClassField<u32> {
    ClassField { ident: Some(name.to_string()), attrs }
}

fn attr_ids(f: &ClassField<u32>) -> Vec<u32> {
    f.attrs.iter().map(|a| a.attr).collect()
}

#[test]
fn impl_class_without_token_emits_the_type_info() {
    let t = impl_class("Foo", "_pyo3::PyObject", None);
    assert_eq!(t.as_str(), TYPE_INFO_FOO);
}

#[test]
fn impl_class_with_token_adds_token_debug_and_display() {
    let t = impl_class("Foo", "_pyo3::PyObject", Some("py"));
    assert_eq!(t.as_str(), format!("{} {}", TYPE_INFO_FOO, TOKEN_IMPLS_FOO_PY));
}

#[test]
fn impl_class_escapes_the_class_name_literal() {
    let t = impl_class("Caf\u{e9}", "_pyo3::PyObject", None);
    assert!(t.as_str().contains("-> & 'static str { \"Caf\\u{e9}\" }"));
    assert!(t.as_str().contains("PyTypeInfo for Caf\u{e9} {"));
}

#[test]
fn impl_class_tokens_uses_the_given_literal() {
    let t = impl_class_tokens("Foo", "_pyo3::PyObject", None, "\"Foo\"");
    assert_eq!(t.as_str(), TYPE_INFO_FOO);
    let u = impl_class_tokens("Foo", "Base", None, "\"X\"");
    assert!(u.as_str().contains("< Base as _pyo3"));
    assert!(u.as_str().contains("{ \"X\" }"));
}

#[test]
fn strip_token_fields_takes_off_every_token_marker() {
    let fields = vec![
        field("a", vec![other(1), word("token", 2), word("doc", 3)]),
        field("b", vec![word("token", 4)]),
        field("c", vec![word("tokens", 5), other(6)]),
    ];
    let (fields, token) = strip_token_fields(fields);
    assert_eq!(token, Some("b".to_string()));
    assert_eq!(fields.len(), 3);
    assert_eq!(attr_ids(&fields[0]), vec![1, 3]);
    assert!(fields[1].attrs.is_empty());
    assert_eq!(attr_ids(&fields[2]), vec![5, 6]);
    assert_eq!(fields[2].ident, Some("c".to_string()));
}

#[test]
fn strip_token_fields_without_marker_finds_no_token() {
    let fields = vec![field("a", vec![other(1)]), field("b", vec![word("x", 2)])];
    let (fields, token) = strip_token_fields(fields);
    assert_eq!(token, None);
    assert_eq!(attr_ids(&fields[0]), vec![1]);
    assert_eq!(attr_ids(&fields[1]), vec![2]);
}

#[test]
fn stripping_again_changes_nothing() {
    let fields = vec![field("a", vec![word("token", 1), other(2)])];
    let (fields, token) = strip_token_fields(fields);
    assert_eq!(token, Some("a".to_string()));
    let (fields, token) = strip_token_fields(fields);
    assert_eq!(token, None);
    assert_eq!(attr_ids(&fields[0]), vec![2]);
}

#[test]
fn build_py_class_without_token_field() {
    let mut ast = ClassDef {
        ident: "Foo".to_string(),
        body: ClassBody::Struct(vec![field("x", vec![other(7)])]),
    };
    let t = build_py_class(&mut ast);
    assert_eq!(
        t.as_str(),
        format!("{} _IMPL_PYO3_CLS_Foo {} {} }} ;", WRAPPER_HEAD, WRAPPER_MIDDLE, TYPE_INFO_FOO)
    );
    assert_eq!(ast.ident, "Foo");
    match &ast.body {
        ClassBody::Struct(fields) => assert_eq!(attr_ids(&fields[0]), vec![7]),
        ClassBody::Other => panic!("the body is still a struct"),
    }
}

#[test]
fn build_py_class_with_token_field() {
    let mut ast = ClassDef {
        ident: "Foo".to_string(),
        body: ClassBody::Struct(vec![
            field("data", vec![other(1)]),
            field("py", vec![word("token", 2), other(3)]),
        ]),
    };
    let t = build_py_class(&mut ast);
    assert_eq!(
        t.as_str(),
        format!(
            "{} _IMPL_PYO3_CLS_Foo {} {} {} }} ;",
            WRAPPER_HEAD, WRAPPER_MIDDLE, TYPE_INFO_FOO, TOKEN_IMPLS_FOO_PY
        )
    );
    match &ast.body {
        ClassBody::Struct(fields) => {
            assert_eq!(attr_ids(&fields[0]), vec![1]);
            assert_eq!(attr_ids(&fields[1]), vec![3]);
        }
        ClassBody::Other => panic!("the body is still a struct"),
    }
}

#[test]
fn impl_class_escapes_quotes_controls_and_nul() {
    let t = impl_class("a\"b\t'\0\\", "_pyo3::PyObject", None);
    assert!(t.as_str().contains("-> & 'static str { \"a\\\"b\\t'\\0\\\\\" }"));
}
