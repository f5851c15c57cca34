//! The expansion of the `#[class]` attribute: the `#[token]` marker is taken
//! off the struct's fields, and the implementations of the class's type
//! information (and, with a token field, of `token`, `Debug` and `Display`)
//! are emitted as tokens.
use vstd::prelude::*;
use vstd::string::*;

verus! {

/// `quote::Tokens`, the buffer of token text that an expansion returns.
#[verifier::external_type_specification]
#[verifier::external_body]
pub struct ExTokens(quote::Tokens);

/// What a token buffer holds: its tokens, separated by single spaces.
pub uninterp spec fn tokens_text(tokens: quote::Tokens) -> Seq<char>;

/// A lower-case hexadecimal digit.
pub open spec fn hex_digit(d: nat) -> char {
    if d < 10 {
        (d + 48) as char
    } else {
        (d + 87) as char
    }
}

/// The lower-case hexadecimal digits of `n`, without leading zeros.
pub open spec fn hex_digits(n: nat) -> Seq<char>
    decreases n,
{
    if n < 16 {
        seq![hex_digit(n)]
    } else {
        hex_digits(n / 16) + seq![hex_digit(n % 16)]
    }
}

/// How a character is written inside a string literal: the nul character
/// as `\0`, the single quote as it is, tab, carriage return, line feed,
/// backslash and double quote with a backslash, other printable ASCII as it
/// is, and everything else as `\u{..}` with its code in hexadecimal.
pub open spec fn escaped_char(c: char) -> Seq<char> {
    if c == '\0' {
        seq!['\\', '0']
    } else if c == '\'' {
        seq!['\'']
    } else if c == '\t' {
        seq!['\\', 't']
    } else if c == '\r' {
        seq!['\\', 'r']
    } else if c == '\n' {
        seq!['\\', 'n']
    } else if c == '\\' {
        seq!['\\', '\\']
    } else if c == '"' {
        seq!['\\', '"']
    } else if ' ' <= c <= '~' {
        seq![c]
    } else {
        seq!['\\', 'u', '{'] + hex_digits(c as nat) + seq!['}']
    }
}

/// The characters of `s`, each written as in a string literal.
pub open spec fn escaped_text(s: Seq<char>) -> Seq<char>
    decreases s.len(),
{
    if s.len() == 0 {
        Seq::empty()
    } else {
        escaped_text(s.drop_last()) + escaped_char(s.last())
    }
}

/// The literal that `quote` writes for a string: the string, escaped, in
/// double quotes.
pub open spec fn str_literal_token(s: Seq<char>) -> Seq<char> {
    seq!['"'] + escaped_text(s) + seq!['"']
}

/// A character that a string literal holds as it is: printable ASCII other
/// than the backslash and the double quote.
pub open spec fn is_plain_literal_char(c: char) -> bool {
    ' ' <= c <= '~' && c != '\\' && c != '"'
}

pub open spec fn is_plain_literal_text(s: Seq<char>) -> bool {
    forall|i: int| 0 <= i < s.len() ==> is_plain_literal_char(#[trigger] s[i])
}

/// The text after `token` is appended to `text`: a space separates them
/// unless one of them is empty.
pub open spec fn appended(text: Seq<char>, token: Seq<char>) -> Seq<char> {
    if text.len() > 0 && token.len() > 0 {
        text + seq![' '] + token
    } else {
        text + token
    }
}

/// The text after each of `pieces` is appended to `text`, in order.
pub open spec fn join_tokens(text: Seq<char>, pieces: Seq<Seq<char>>) -> Seq<char>
    decreases pieces.len(),
{
    if pieces.len() == 0 {
        text
    } else {
        join_tokens(appended(text, pieces[0]), pieces.drop_first())
    }
}

pub open spec fn str_views(pieces: Seq<&str>) -> Seq<Seq<char>> {
    pieces.map_values(|p: &str| p@)
}

/// `quote::Tokens::new`: an empty buffer.
#[verifier::external_body]
fn tokens_new() -> (t: quote::Tokens)
    ensures
        tokens_text(t) == Seq::<char>::empty(),
{
    quote::Tokens::new()
}

/// `quote::Tokens::append`: adds `token` at the end, after a space unless the
/// buffer or `token` is empty.
#[verifier::external_body]
fn tokens_append(tokens: &mut quote::Tokens, token: &str)
    ensures
        tokens_text(*final(tokens)) == appended(tokens_text(*old(tokens)), token@),
{
    tokens.append(token)
}

/// `quote::Tokens::as_str`: the buffer's text.
#[verifier::external_body]
fn tokens_as_str(tokens: &quote::Tokens) -> (r: &str)
    ensures
        r@ == tokens_text(*tokens),
{
    tokens.as_str()
}

/// `<str as quote::ToTokens>::to_tokens`: adds the string literal for `s`
/// (each character escaped as `char::escape_default` does, but for the nul
/// character and the single quote), after a space unless the buffer is empty.
#[verifier::external_body]
fn tokens_append_str_literal(tokens: &mut quote::Tokens, s: &str)
    ensures
        tokens_text(*final(tokens)) == appended(tokens_text(*old(tokens)), str_literal_token(s@)),
{
    quote::ToTokens::to_tokens(s, tokens)
}

/// Appending one more piece after a sequence of pieces.
pub proof fn lemma_join_tokens_push(text: Seq<char>, pieces: Seq<Seq<char>>, last: Seq<char>)
    ensures
        join_tokens(text, pieces.push(last)) == appended(join_tokens(text, pieces), last),
    decreases pieces.len(),
{
    if pieces.len() > 0 {
        assert(pieces.push(last)[0] == pieces[0]);
        assert(pieces.push(last).drop_first() =~= pieces.drop_first().push(last));
        assert(join_tokens(text, pieces.push(last)) == join_tokens(
            appended(text, pieces[0]),
            pieces.drop_first().push(last),
        ));
        lemma_join_tokens_push(appended(text, pieces[0]), pieces.drop_first(), last);
        assert(join_tokens(text, pieces) == join_tokens(appended(text, pieces[0]), pieces.drop_first()));
    } else {
        assert(pieces.push(last)[0] == last);
        assert(pieces.push(last).drop_first() =~= Seq::<Seq<char>>::empty());
        assert(join_tokens(appended(text, last), Seq::<Seq<char>>::empty()) == appended(text, last));
        assert(join_tokens(text, pieces.push(last)) == join_tokens(
            appended(text, last),
            Seq::<Seq<char>>::empty(),
        ));
        assert(join_tokens(text, pieces) == text);
    }
}

/// Appends each of `pieces` to `tokens`, in order.
fn append_all(tokens: &mut quote::Tokens, pieces: &Vec<&str>)
    ensures
        tokens_text(*final(tokens)) == join_tokens(tokens_text(*old(tokens)), str_views(pieces@)),
{
    let ghost start = tokens_text(*tokens);
    let mut i: usize = 0;
    while i < pieces.len()
        invariant
            i <= pieces@.len(),
            tokens_text(*tokens) == join_tokens(start, str_views(pieces@).take(i as int)),
        decreases pieces@.len() - i,
    {
        proof {
            assert(str_views(pieces@).take(i + 1) =~= str_views(pieces@).take(i as int).push(
                pieces@[i as int]@,
            ));
            lemma_join_tokens_push(start, str_views(pieces@).take(i as int), pieces@[i as int]@);
        }
        tokens_append(tokens, pieces[i]);
        i = i + 1;
    }
    assert(str_views(pieces@).take(i as int) =~= str_views(pieces@));
}

/// The tokens of the class's `PyTypeInfo` implementation; `cls_literal` is
/// the string literal of the class's name.
pub open spec fn type_info_pieces(cls: Seq<char>, base: Seq<char>, cls_literal: Seq<char>) -> Seq<
    Seq<char>,
> {
    seq![
        "impl _pyo3 :: typeob :: PyTypeInfo for"@,
        cls,
        "{ type Type ="@,
        cls,
        "; # [ inline ] fn size ( ) -> usize { Self :: offset ( ) as usize + std :: mem :: size_of :: <"@,
        cls,
        "> ( ) } # [ inline ] fn offset ( ) -> isize { let align = std :: mem :: align_of :: <"@,
        cls,
        "> ( ) ; let bs = <"@,
        base,
        "as _pyo3 :: typeob :: PyTypeInfo > :: size ( ) ; ( ( bs + align - 1 ) / align * align ) as isize } # [ inline ] fn type_name ( ) -> & 'static str {"@,
        cls_literal,
        "} # [ inline ] fn type_object ( ) -> & 'static mut _pyo3 :: ffi :: PyTypeObject { static mut TYPE_OBJECT : _pyo3 :: ffi :: PyTypeObject = _pyo3 :: ffi :: PyTypeObject_INIT ; unsafe { & mut TYPE_OBJECT } } }"@
    ]
}

/// The tokens of the `token`, `Debug` and `Display` implementations of a
/// class whose GIL token is kept in the field `token`.
pub open spec fn token_impl_pieces(cls: Seq<char>, token: Seq<char>) -> Seq<Seq<char>> {
    seq![
        "impl _pyo3 :: python :: PythonObjectWithToken for"@,
        cls,
        "{ fn token < 'p > ( & 'p self ) -> _pyo3 :: python :: Python < 'p > { self ."@,
        token,
        ". token ( ) } } impl std :: fmt :: Debug for"@,
        cls,
        "{ fn fmt ( & self , f : & mut std :: fmt :: Formatter ) -> Result < ( ) , std :: fmt :: Error > { let ptr = <"@,
        cls,
        "as _pyo3 :: python :: ToPythonPointer > :: as_ptr ( self ) ; let repr = unsafe { _pyo3 :: Py :: < _pyo3 :: PyString > :: cast_from_owned_nullptr ( self . token ( ) , _pyo3 :: ffi :: PyObject_Repr ( ptr ) ) . map_err ( | _ | std :: fmt :: Error ) ? } ; f . write_str ( & repr . to_string_lossy ( ) ) } } impl std :: fmt :: Display for"@,
        cls,
        "{ fn fmt ( & self , f : & mut std :: fmt :: Formatter ) -> Result < ( ) , std :: fmt :: Error > { let ptr = <"@,
        cls,
        "as _pyo3 :: python :: ToPythonPointer > :: as_ptr ( self ) ; let s = unsafe { _pyo3 :: Py :: < _pyo3 :: PyString > :: cast_from_owned_nullptr ( self . token ( ) , _pyo3 :: ffi :: PyObject_Str ( ptr ) ) . map_err ( | _ | std :: fmt :: Error ) ? } ; f . write_str ( & s . to_string_lossy ( ) ) } }"@
    ]
}

/// The text of the implementations generated for a class.
pub open spec fn impl_class_text(
    cls: Seq<char>,
    base: Seq<char>,
    token: Option<Seq<char>>,
    cls_literal: Seq<char>,
) -> Seq<char> {
    let info = join_tokens(Seq::empty(), type_info_pieces(cls, base, cls_literal));
    match token {
        Some(t) => appended(info, join_tokens(Seq::empty(), token_impl_pieces(cls, t))),
        None => info,
    }
}

pub open spec fn opt_view(s: Option<&str>) -> Option<Seq<char>> {
    match s {
        Some(t) => Some(t@),
        None => None,
    }
}

/// The implementations generated for the class `cls` deriving from `base`,
/// given the string literal of its name.
pub fn impl_class_tokens(cls: &str, base: &str, token: Option<&str>, cls_literal: &str) -> (r:
    quote::Tokens)
    ensures
        tokens_text(r) == impl_class_text(cls@, base@, opt_view(token), cls_literal@),
{
    let mut tokens = tokens_new();
    let info: Vec<&str> = vec![
        "impl _pyo3 :: typeob :: PyTypeInfo for",
        cls,
        "{ type Type =",
        cls,
        "; # [ inline ] fn size ( ) -> usize { Self :: offset ( ) as usize + std :: mem :: size_of :: <",
        cls,
        "> ( ) } # [ inline ] fn offset ( ) -> isize { let align = std :: mem :: align_of :: <",
        cls,
        "> ( ) ; let bs = <",
        base,
        "as _pyo3 :: typeob :: PyTypeInfo > :: size ( ) ; ( ( bs + align - 1 ) / align * align ) as isize } # [ inline ] fn type_name ( ) -> & 'static str {",
        cls_literal,
        "} # [ inline ] fn type_object ( ) -> & 'static mut _pyo3 :: ffi :: PyTypeObject { static mut TYPE_OBJECT : _pyo3 :: ffi :: PyTypeObject = _pyo3 :: ffi :: PyTypeObject_INIT ; unsafe { & mut TYPE_OBJECT } } }",
    ];
    assert(str_views(info@) =~= type_info_pieces(cls@, base@, cls_literal@));
    append_all(&mut tokens, &info);
    match token {
        Some(t) => {
            let mut extra = tokens_new();
            let pieces: Vec<&str> = vec![
                "impl _pyo3 :: python :: PythonObjectWithToken for",
                cls,
                "{ fn token < 'p > ( & 'p self ) -> _pyo3 :: python :: Python < 'p > { self .",
                t,
                ". token ( ) } } impl std :: fmt :: Debug for",
                cls,
                "{ fn fmt ( & self , f : & mut std :: fmt :: Formatter ) -> Result < ( ) , std :: fmt :: Error > { let ptr = <",
                cls,
                "as _pyo3 :: python :: ToPythonPointer > :: as_ptr ( self ) ; let repr = unsafe { _pyo3 :: Py :: < _pyo3 :: PyString > :: cast_from_owned_nullptr ( self . token ( ) , _pyo3 :: ffi :: PyObject_Repr ( ptr ) ) . map_err ( | _ | std :: fmt :: Error ) ? } ; f . write_str ( & repr . to_string_lossy ( ) ) } } impl std :: fmt :: Display for",
                cls,
                "{ fn fmt ( & self , f : & mut std :: fmt :: Formatter ) -> Result < ( ) , std :: fmt :: Error > { let ptr = <",
                cls,
                "as _pyo3 :: python :: ToPythonPointer > :: as_ptr ( self ) ; let s = unsafe { _pyo3 :: Py :: < _pyo3 :: PyString > :: cast_from_owned_nullptr ( self . token ( ) , _pyo3 :: ffi :: PyObject_Str ( ptr ) ) . map_err ( | _ | std :: fmt :: Error ) ? } ; f . write_str ( & s . to_string_lossy ( ) ) } }",
            ];
            assert(str_views(pieces@) =~= token_impl_pieces(cls@, t@));
            append_all(&mut extra, &pieces);
            tokens_append(&mut tokens, tokens_as_str(&extra));
        },
        None => {},
    }
    tokens
}

/// The implementations generated for the class `cls` deriving from `base`;
/// with a `token` field the class also gets `token`, `Debug` and `Display`.
pub fn impl_class(cls: &str, base: &str, token: Option<&str>) -> (r: quote::Tokens)
    ensures
        tokens_text(r) == impl_class_text(cls@, base@, opt_view(token), str_literal_token(cls@)),
        is_plain_literal_text(cls@) ==> str_literal_token(cls@) == seq!['"'] + cls@ + seq!['"'],
{
    let mut cls_name = tokens_new();
    tokens_append_str_literal(&mut cls_name, cls);
    let cls_literal = tokens_as_str(&cls_name);
    assert(cls_literal@ =~= str_literal_token(cls@));
    proof {
        lemma_plain_text_is_not_escaped(cls@);
    }
    impl_class_tokens(cls, base, token, cls_literal)
}


/// An attribute on a field: the word when it is a bare word such as
/// `#[token]`, and the attribute itself.
pub struct FieldAttribute<A> {
    pub word: Option<String>,
    pub attr: A,
}

/// A field of the class's struct: its name, if any, and its attributes.
pub struct ClassField<A> {
    pub ident: Option<String>,
    pub attrs: Vec<FieldAttribute<A>>,
}

/// The body of the item that `#[class]` is put on.
pub enum ClassBody<A> {
    /// A struct with named fields.
    Struct(Vec<ClassField<A>>),
    /// An enum, a tuple struct or a unit struct.
    Other,
}

/// The item that `#[class]` is put on: its name and its body.
pub struct ClassDef<A> {
    pub ident: String,
    pub body: ClassBody<A>,
}

/// The attribute `#[token]`, which marks the field that holds the GIL token.
pub open spec fn is_token_attr<A>(a: FieldAttribute<A>) -> bool {
    a.word matches Some(w) && w@ == "token"@
}

/// The attributes that remain once every `#[token]` is taken off.
pub open spec fn strip_token_attrs<A>(attrs: Seq<FieldAttribute<A>>) -> Seq<FieldAttribute<A>>
    decreases attrs.len(),
{
    if attrs.len() == 0 {
        attrs
    } else if is_token_attr(attrs.last()) {
        strip_token_attrs(attrs.drop_last())
    } else {
        strip_token_attrs(attrs.drop_last()).push(attrs.last())
    }
}

pub open spec fn has_token_attr<A>(attrs: Seq<FieldAttribute<A>>) -> bool {
    exists|i: int| 0 <= i < attrs.len() && is_token_attr(#[trigger] attrs[i])
}

pub open spec fn opt_string_view(s: Option<String>) -> Option<Seq<char>> {
    match s {
        Some(t) => Some(t@),
        None => None,
    }
}

/// The name of the last field that carries `#[token]`, or `None` when no
/// field does.
pub open spec fn token_field<A>(fields: Seq<ClassField<A>>) -> Option<Seq<char>>
    decreases fields.len(),
{
    if fields.len() == 0 {
        None
    } else if has_token_attr(fields.last().attrs@) {
        opt_string_view(fields.last().ident)
    } else {
        token_field(fields.drop_last())
    }
}

/// `new` is `old` with `#[token]` taken off each field.
pub open spec fn fields_stripped<A>(new: Seq<ClassField<A>>, old: Seq<ClassField<A>>) -> bool {
    &&& new.len() == old.len()
    &&& forall|i: int|
        0 <= i < old.len() ==> (#[trigger] new[i]).ident == old[i].ident && new[i].attrs@
            == strip_token_attrs(old[i].attrs@)
}

/// Whether `w` is the word `token`.
fn is_token_word(w: &String) -> (r: bool)
    ensures
        r == (w@ == "token"@),
{
    let t = String::from_str("token");
    w.eq(&t)
}

/// Takes `#[token]` off a field's attributes, and tells whether there was one.
fn strip_field_attrs<A>(attrs: Vec<FieldAttribute<A>>) -> (r: (Vec<FieldAttribute<A>>, bool))
    ensures
        r.0@ == strip_token_attrs(attrs@),
        r.1 == has_token_attr(attrs@),
{
    let ghost orig = attrs@;
    let mut rest = attrs;
    let n: usize = rest.len();
    let mut kept: Vec<FieldAttribute<A>> = Vec::new();
    let mut found = false;
    let mut i: usize = 0;
    while rest.len() > 0
        invariant
            i + rest@.len() == orig.len(),
            orig.len() == n,
            rest@ == orig.skip(i as int),
            kept@ == strip_token_attrs(orig.take(i as int)),
            found == has_token_attr(orig.take(i as int)),
        decreases rest@.len(),
    {
        let a = rest.remove(0);
        proof {
            assert(a == orig[i as int]);
            assert(orig.take(i + 1).drop_last() =~= orig.take(i as int));
            assert(orig.take(i + 1).last() == a);
            assert(rest@ =~= orig.skip(i + 1));
        }
        let is_token = match &a.word {
            Some(w) => is_token_word(w),
            None => false,
        };
        proof {
            if has_token_attr(orig.take(i as int)) {
                let j = choose|j: int|
                    0 <= j < i && is_token_attr(#[trigger] orig.take(i as int)[j]);
                assert(orig.take(i + 1)[j] == orig.take(i as int)[j]);
            }
            if has_token_attr(orig.take(i + 1)) && !is_token {
                let j = choose|j: int|
                    0 <= j < i + 1 && is_token_attr(#[trigger] orig.take(i + 1)[j]);
                assert(j < i);
                assert(orig.take(i + 1)[j] == orig.take(i as int)[j]);
            }
            if is_token {
                assert(orig.take(i + 1)[i as int] == a);
            }
        }
        if is_token {
            found = true;
        } else {
            kept.push(a);
        }
        i = i + 1;
    }
    assert(orig.take(i as int) =~= orig);
    (kept, found)
}

/// Takes `#[token]` off every field, and returns the name of the last field
/// that carried it.
pub fn strip_token_fields<A>(fields: Vec<ClassField<A>>) -> (r: (Vec<ClassField<A>>, Option<String>))
    ensures
        fields_stripped(r.0@, fields@),
        opt_string_view(r.1) == token_field(fields@),
{
    let ghost orig = fields@;
    let mut rest = fields;
    let n: usize = rest.len();
    let mut done: Vec<ClassField<A>> = Vec::new();
    let mut token: Option<String> = None;
    let mut i: usize = 0;
    while rest.len() > 0
        invariant
            i + rest@.len() == orig.len(),
            orig.len() == n,
            rest@ == orig.skip(i as int),
            fields_stripped(done@, orig.take(i as int)),
            opt_string_view(token) == token_field(orig.take(i as int)),
        decreases rest@.len(),
    {
        let field = rest.remove(0);
        proof {
            assert(field == orig[i as int]);
            assert(orig.take(i + 1).drop_last() =~= orig.take(i as int));
            assert(orig.take(i + 1).last() == field);
            assert(rest@ =~= orig.skip(i + 1));
        }
        let ClassField { ident, attrs } = field;
        let (attrs, found) = strip_field_attrs(attrs);
        if found {
            token = match &ident {
                Some(name) => Some(name.clone()),
                None => None,
            };
        }
        done.push(ClassField { ident, attrs });
        i = i + 1;
    }
    assert(orig.take(i as int) =~= orig);
    (done, token)
}

/// The text of the expansion of `#[class]` on the struct `ident`, around the
/// text `impls` of the generated implementations.
pub open spec fn class_expansion_text(ident: Seq<char>, impls: Seq<char>) -> Seq<char> {
    join_tokens(
        Seq::empty(),
        seq![
            "# [ feature ( specialization ) ] # [ allow ( non_upper_case_globals , unused_attributes , unused_qualifications , unused_variables , non_camel_case_types ) ] const"@,
            "_IMPL_PYO3_CLS_"@ + ident,
            ": ( ) = { extern crate pyo3 as _pyo3 ; use std ; use pyo3 :: python :: PythonObjectWithToken ;"@,
            impls,
            "} ;"@
        ],
    )
}

/// The class's base, as it is written in the generated code.
pub open spec fn base_path() -> Seq<char> {
    "_pyo3::PyObject"@
}

/// Expands `#[class]` on the struct `ast`: takes `#[token]` off its fields,
/// and returns a constant item that holds the implementations of the class's
/// type information (and, when a field carries `#[token]`, of `token`,
/// `Debug` and `Display` through that field).
pub fn build_py_class<A>(ast: &mut ClassDef<A>) -> (r: quote::Tokens)
    requires
        old(ast).body is Struct,
    ensures
        final(ast).ident == old(ast).ident,
        final(ast).body is Struct,
        fields_stripped(final(ast).body->Struct_0@, old(ast).body->Struct_0@),
        tokens_text(r) == class_expansion_text(
            old(ast).ident@,
            impl_class_text(
                old(ast).ident@,
                base_path(),
                token_field(old(ast).body->Struct_0@),
                str_literal_token(old(ast).ident@),
            ),
        ),
        is_plain_literal_text(old(ast).ident@) ==> str_literal_token(old(ast).ident@) == seq!['"']
            + old(ast).ident@ + seq!['"'],
{
    let base = "_pyo3::PyObject";
    let mut body = ClassBody::Other;
    std::mem::swap(&mut body, &mut ast.body);
    let token = match body {
        ClassBody::Struct(fields) => {
            let (fields, token) = strip_token_fields(fields);
            ast.body = ClassBody::Struct(fields);
            token
        },
        ClassBody::Other => {
            None
        },
    };
    let mut dummy_const = String::from_str("_IMPL_PYO3_CLS_");
    dummy_const.append(ast.ident.as_str());
    let tokens = match &token {
        Some(t) => impl_class(ast.ident.as_str(), base, Some(t.as_str())),
        None => impl_class(ast.ident.as_str(), base, None),
    };
    let mut out = tokens_new();
    let pieces: Vec<&str> = vec![
        "# [ feature ( specialization ) ] # [ allow ( non_upper_case_globals , unused_attributes , unused_qualifications , unused_variables , non_camel_case_types ) ] const",
        dummy_const.as_str(),
        ": ( ) = { extern crate pyo3 as _pyo3 ; use std ; use pyo3 :: python :: PythonObjectWithToken ;",
        tokens_as_str(&tokens),
        "} ;",
    ];
    assert(str_views(pieces@) =~= seq![
        "# [ feature ( specialization ) ] # [ allow ( non_upper_case_globals , unused_attributes , unused_qualifications , unused_variables , non_camel_case_types ) ] const"@,
        "_IMPL_PYO3_CLS_"@ + old(ast).ident@,
        ": ( ) = { extern crate pyo3 as _pyo3 ; use std ; use pyo3 :: python :: PythonObjectWithToken ;"@,
        tokens_text(tokens),
        "} ;"@
    ]);
    append_all(&mut out, &pieces);
    out
}


/// Once `#[token]` is taken off, no `#[token]` remains.
pub proof fn lemma_stripped_has_no_token<A>(attrs: Seq<FieldAttribute<A>>)
    ensures
        !has_token_attr(strip_token_attrs(attrs)),
    decreases attrs.len(),
{
    if attrs.len() > 0 {
        lemma_stripped_has_no_token(attrs.drop_last());
        let inner = strip_token_attrs(attrs.drop_last());
        if !is_token_attr(attrs.last()) {
            assert forall|i: int|
                0 <= i < inner.push(attrs.last()).len() implies !is_token_attr(
                #[trigger] inner.push(attrs.last())[i],
            ) by {
                if i < inner.len() {
                    assert(inner.push(attrs.last())[i] == inner[i]);
                }
            }
        }
    }
}

/// Taking `#[token]` off twice is taking it off once.
pub proof fn lemma_strip_idempotent<A>(attrs: Seq<FieldAttribute<A>>)
    ensures
        strip_token_attrs(strip_token_attrs(attrs)) == strip_token_attrs(attrs),
    decreases attrs.len(),
{
    if attrs.len() > 0 {
        lemma_strip_idempotent(attrs.drop_last());
        let inner = strip_token_attrs(attrs.drop_last());
        if !is_token_attr(attrs.last()) {
            let s = inner.push(attrs.last());
            assert(s.drop_last() =~= inner);
            assert(s.last() == attrs.last());
        }
    }
}

/// The fields that an expansion leaves carry no `#[token]`, so expanding
/// them again finds no token field.
pub proof fn lemma_stripped_fields_have_no_token<A>(new: Seq<ClassField<A>>, old: Seq<ClassField<A>>)
    requires
        fields_stripped(new, old),
    ensures
        token_field(new) is None,
    decreases new.len(),
{
    if new.len() > 0 {
        let k: int = new.len() - 1;
        assert(new.last() == new[k]);
        lemma_stripped_has_no_token(old[k].attrs@);
        assert(fields_stripped(new.drop_last(), old.drop_last())) by {
            assert forall|i: int| 0 <= i < old.drop_last().len() implies (#[trigger] new.drop_last()[i]).ident
                == old.drop_last()[i].ident && new.drop_last()[i].attrs@ == strip_token_attrs(
                old.drop_last()[i].attrs@,
            ) by {
                assert(new.drop_last()[i] == new[i]);
                assert(old.drop_last()[i] == old[i]);
            }
        }
        lemma_stripped_fields_have_no_token(new.drop_last(), old.drop_last());
    }
}


/// A string of plain characters is written in a literal as it is.
pub proof fn lemma_plain_text_is_not_escaped(s: Seq<char>)
    ensures
        is_plain_literal_text(s) ==> escaped_text(s) == s,
    decreases s.len(),
{
    if s.len() > 0 && is_plain_literal_text(s) {
        assert(is_plain_literal_text(s.drop_last())) by {
            assert forall|i: int| 0 <= i < s.drop_last().len() implies is_plain_literal_char(
                #[trigger] s.drop_last()[i],
            ) by {
                assert(s.drop_last()[i] == s[i]);
            }
        }
        lemma_plain_text_is_not_escaped(s.drop_last());
        assert(is_plain_literal_char(s[s.len() - 1]));
        assert(s.drop_last() + seq![s.last()] =~= s);
    }
}


/// The token field is the last field that carries `#[token]` among any of its
/// attributes: when field `i` carries it at position `j` and no later field
/// carries it, the token is field `i`'s name.
pub proof fn lemma_token_field_is_last_marked<A>(fields: Seq<ClassField<A>>, i: int, j: int)
    requires
        0 <= i < fields.len(),
        0 <= j < fields[i].attrs@.len(),
        is_token_attr(fields[i].attrs@[j]),
        forall|k: int, l: int|
            i < k < fields.len() && 0 <= l < fields[k].attrs@.len() ==> !is_token_attr(
                #[trigger] fields[k].attrs@[l],
            ),
    ensures
        token_field(fields) == opt_string_view(fields[i].ident),
    decreases fields.len(),
{
    let last = fields.len() - 1;
    assert(fields.last() == fields[last]);
    if i == last {
        assert(is_token_attr(fields.last().attrs@[j]));
        assert(has_token_attr(fields.last().attrs@));
    } else {
        assert(!has_token_attr(fields.last().attrs@)) by {
            assert forall|l: int| 0 <= l < fields.last().attrs@.len() implies !is_token_attr(
                #[trigger] fields.last().attrs@[l],
            ) by {
                assert(fields.last().attrs@[l] == fields[last].attrs@[l]);
            }
        }
        let rest = fields.drop_last();
        assert(rest[i] == fields[i]);
        assert forall|k: int, l: int|
            i < k < rest.len() && 0 <= l < rest[k].attrs@.len() implies !is_token_attr(
            #[trigger] rest[k].attrs@[l],
        ) by {
            assert(rest[k] == fields[k]);
            assert(rest[k].attrs@[l] == fields[k].attrs@[l]);
        }
        lemma_token_field_is_last_marked(rest, i, j);
    }
}

/// A struct none of whose fields carries `#[token]` has no token field.
pub proof fn lemma_no_marker_no_token<A>(fields: Seq<ClassField<A>>)
    requires
        forall|k: int, l: int|
            0 <= k < fields.len() && 0 <= l < fields[k].attrs@.len() ==> !is_token_attr(
                #[trigger] fields[k].attrs@[l],
            ),
    ensures
        token_field(fields) is None,
    decreases fields.len(),
{
    if fields.len() > 0 {
        let last = fields.len() - 1;
        assert(fields.last() == fields[last]);
        assert(!has_token_attr(fields.last().attrs@)) by {
            assert forall|l: int| 0 <= l < fields.last().attrs@.len() implies !is_token_attr(
                #[trigger] fields.last().attrs@[l],
            ) by {
                assert(fields.last().attrs@[l] == fields[last].attrs@[l]);
            }
        }
        let rest = fields.drop_last();
        assert forall|k: int, l: int|
            0 <= k < rest.len() && 0 <= l < rest[k].attrs@.len() implies !is_token_attr(
            #[trigger] rest[k].attrs@[l],
        ) by {
            assert(rest[k] == fields[k]);
        }
        lemma_no_marker_no_token(rest);
    }
}


/// Appending pieces only adds text at the end.
pub proof fn lemma_join_tokens_extends(text: Seq<char>, pieces: Seq<Seq<char>>)
    ensures
        join_tokens(text, pieces).len() >= text.len(),
        join_tokens(text, pieces) == text + join_tokens(text, pieces).subrange(
            text.len() as int,
            join_tokens(text, pieces).len() as int,
        ),
    decreases pieces.len(),
{
    let j = join_tokens(text, pieces);
    if pieces.len() == 0 {
        assert(j =~= text + j.subrange(text.len() as int, j.len() as int));
    } else {
        let next = appended(text, pieces[0]);
        lemma_join_tokens_extends(next, pieces.drop_first());
        assert(next.subrange(0, text.len() as int) =~= text);
        assert(j.subrange(0, text.len() as int) =~= next.subrange(0, text.len() as int));
        assert(j =~= text + j.subrange(text.len() as int, j.len() as int));
    }
}

/// Appending `a` and then `b` is appending `a + b`.
pub proof fn lemma_join_tokens_concat(text: Seq<char>, a: Seq<Seq<char>>, b: Seq<Seq<char>>)
    ensures
        join_tokens(text, a + b) == join_tokens(join_tokens(text, a), b),
    decreases a.len(),
{
    if a.len() == 0 {
        assert(a + b =~= b);
    } else {
        assert((a + b)[0] == a[0]);
        assert((a + b).drop_first() =~= a.drop_first() + b);
        lemma_join_tokens_concat(appended(text, a[0]), a.drop_first(), b);
    }
}

/// The generated `token` method reads the field whose name is given: with a
/// token field `t`, the implementations contain `self . t . token ( )`.
pub proof fn lemma_token_method_reads_field(
    cls: Seq<char>,
    base: Seq<char>,
    t: Seq<char>,
    cls_literal: Seq<char>,
)
    requires
        t.len() > 0,
    ensures
        exists|pre: Seq<char>, post: Seq<char>|
            impl_class_text(cls, base, Some(t), cls_literal) == pre + "self ."@ + seq![' '] + t
                + seq![' '] + ". token ( )"@ + post,
{
    let open = "{ fn token < 'p > ( & 'p self ) -> _pyo3 :: python :: Python < 'p > { self ."@;
    let close = ". token ( ) } } impl std :: fmt :: Debug for"@;
    reveal_strlit("{ fn token < 'p > ( & 'p self ) -> _pyo3 :: python :: Python < 'p > { self .");
    reveal_strlit(". token ( ) } } impl std :: fmt :: Debug for");
    reveal_strlit("self .");
    reveal_strlit(". token ( )");
    let self_dot = "self ."@;
    let token_call = ". token ( )"@;
    assert(open =~= open.subrange(0, open.len() - 6) + self_dot);
    assert(close =~= token_call + close.subrange(11, close.len() as int));
    let pieces = token_impl_pieces(cls, t);
    let a = pieces.take(3);
    let b = pieces.skip(4);
    assert(pieces =~= a + seq![t] + b);
    assert(a[2] == open);
    assert(b[0] == close);
    let e = Seq::<char>::empty();
    lemma_join_tokens_concat(e, a + seq![t], b);
    lemma_join_tokens_concat(e, a, seq![t]);
    assert(seq![t].drop_first() =~= Seq::<Seq<char>>::empty());
    let q = join_tokens(e, a);
    assert(a =~= a.take(2).push(open));
    lemma_join_tokens_push(e, a.take(2), open);
    let x = join_tokens(e, a.take(2));
    let x2 = if x.len() > 0 { x + seq![' '] } else { x };
    assert(q =~= x2 + open);
    let r = appended(q, t);
    assert(seq![t][0] == t);
    assert(join_tokens(r, Seq::<Seq<char>>::empty()) == r);
    assert(join_tokens(q, seq![t]) == join_tokens(r, seq![t].drop_first()));
    assert(join_tokens(q, seq![t]) == r);
    assert(r =~= x2 + open.subrange(0, open.len() - 6) + self_dot + seq![' '] + t);
    let after = appended(r, close);
    assert(after =~= r + seq![' '] + token_call + close.subrange(11, close.len() as int));
    lemma_join_tokens_extends(after, b.drop_first());
    let extra = join_tokens(e, pieces);
    assert(extra == join_tokens(r, b));
    assert(join_tokens(r, b) == join_tokens(after, b.drop_first()));
    let w = join_tokens(after, b.drop_first()).subrange(
        after.len() as int,
        join_tokens(after, b.drop_first()).len() as int,
    );
    let info = join_tokens(e, type_info_pieces(cls, base, cls_literal));
    let lead = if info.len() > 0 { info + seq![' '] } else { info };
    let pre = lead + x2 + open.subrange(0, open.len() - 6);
    let post = close.subrange(11, close.len() as int) + w;
    assert(impl_class_text(cls, base, Some(t), cls_literal) == appended(info, extra));
    assert(impl_class_text(cls, base, Some(t), cls_literal) =~= pre + self_dot + seq![' '] + t
        + seq![' '] + token_call + post);
}

} // verus!
