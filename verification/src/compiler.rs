//! What the compiler front end learns about the exported items of a crate:
//! which names are exported, and the signatures recorded for them.
//!
//! The items of a crate are given here as plain values ([`Item`]) that stand for
//! what the compiler's HIR says of each item: its name, its attributes, and for
//! a function the primitive types of its parameters and result.
use vstd::prelude::*;
use crate::any::Any;
use crate::symbols::SymbolMap;
use crate::text::{str_eq, trim, trim_ws, views};

verus! {

/// A signed integer type of the language.
#[derive(Clone, Copy, Debug, PartialEq, Eq, Structural)]
pub enum IntTy {
    Isize,
    I8,
    I16,
    I32,
    I64,
    I128,
}

/// A floating-point type of the language.
#[derive(Clone, Copy, Debug, PartialEq, Eq, Structural)]
pub enum FloatTy {
    F32,
    F64,
}

/// A primitive type, as a type path in a signature resolves to it.
#[derive(Clone, Copy, Debug, PartialEq, Eq, Structural)]
pub enum PrimTy {
    Int(IntTy),
    /// any unsigned integer type
    Uint,
    Float(FloatTy),
    Str,
    Bool,
    Char,
}

/// A type written in a function signature: a path that resolves to a
/// primitive type, or anything else (references, pointers, tuples, ...).
#[derive(Clone, Copy, Debug, PartialEq, Eq, Structural)]
pub enum HirTy {
    Prim(PrimTy),
    Other,
}

/// The kind of a type as the type checker reports it: an integer type, or another kind.
#[derive(Clone, Copy, Debug, PartialEq, Eq, Structural)]
pub enum TyKind {
    Int(IntTy),
    Other,
}

/// An attribute on an item.
#[derive(Debug, PartialEq)]
pub enum Attribute {
    /// `#[no_mangle]`
    NoMangle,
    /// `#[export_name = ...]`, with its string value when it has one
    ExportName(Option<String>),
    /// any other attribute
    Other,
}

/// What kind of item a crate-level item is, with what is recorded of it.
#[derive(Debug, PartialEq)]
pub enum ItemKind {
    /// a `static`, with its type as the compiler prints it
    Static { ty: String },
    /// a function, with its type as the compiler prints it, its parameter
    /// types, and its written return type (`None` when it has none)
    Fn { sig: String, inputs: Vec<HirTy>, output: Option<HirTy> },
    /// any other item
    Other,
}

/// A crate-level item.
#[derive(Debug, PartialEq)]
pub struct Item {
    pub ident: String,
    pub attrs: Vec<Attribute>,
    pub kind: ItemKind,
}

/// An exported static variable.
#[derive(Debug, PartialEq)]
pub struct Varibale {
    /// its type, as a type tag
    pub ty: Any,
}

/// An exported function.
#[derive(Debug, PartialEq)]
pub struct Function {
    /// its parameter types, as type tags
    pub args: Vec<Any>,
    /// its return type, as a type tag (`Null` for none)
    pub ret: Any,
    /// its type as the compiler prints it
    pub sig: String,
}

/// What is known of an exported function.
pub struct FunctionView {
    pub args: Seq<Any>,
    pub ret: Any,
    pub sig: Seq<char>,
}

impl View for Function {
    type V = FunctionView;

    open spec fn view(&self) -> FunctionView {
        FunctionView { args: self.args@, ret: self.ret, sig: self.sig@ }
    }
}

/// The exported items of a compiled crate and where the library was written.
#[derive(Debug)]
pub struct CompilingResult {
    /// exported statics, by symbol name
    pub variables: SymbolMap<Varibale>,
    /// exported functions, by symbol name
    pub functions: SymbolMap<Function>,
    /// the path of the compiled library
    pub output: String,
}

/// What a compilation result records.
pub struct ResultView {
    /// the type of each exported static
    pub variables: Map<Seq<char>, Any>,
    /// each exported function
    pub functions: Map<Seq<char>, FunctionView>,
    pub output: Seq<char>,
}

impl View for CompilingResult {
    type V = ResultView;

    open spec fn view(&self) -> ResultView {
        ResultView {
            variables: self.variables@.map_values(|v: Varibale| v.ty),
            functions: self.functions@.map_values(|f: Function| f@),
            output: self.output@,
        }
    }
}

impl Default for Varibale {
    fn default() -> (r: Varibale)
        ensures
            r.ty == Any::Null,
    {
        Varibale { ty: Any::Null }
    }
}

impl Default for Function {
    fn default() -> (r: Function)
        ensures
            r.args@.len() == 0,
            r.ret == Any::Null,
            r.sig@.len() == 0,
    {
        Function { args: Vec::new(), ret: Any::Null, sig: String::new() }
    }
}

impl Default for CompilingResult {
    fn default() -> (r: CompilingResult)
        ensures
            r@.variables == Map::<Seq<char>, Any>::empty(),
            r@.functions == Map::<Seq<char>, FunctionView>::empty(),
            r@.output.len() == 0,
    {
        let r = CompilingResult {
            variables: SymbolMap::new(),
            functions: SymbolMap::new(),
            output: String::new(),
        };
        assert(r@.variables =~= Map::<Seq<char>, Any>::empty());
        assert(r@.functions =~= Map::<Seq<char>, FunctionView>::empty());
        r
    }
}

/// The type tag for a type name as the compiler prints it.
pub open spec fn spec_str_to_any(kind: Seq<char>) -> Any {
    if kind == "i32"@ {
        Any::Int(0)
    } else if kind == "i16"@ {
        Any::Short(0)
    } else if kind == "i64"@ {
        Any::Long(0)
    } else if kind == "f32"@ {
        Any::Float(0)
    } else if kind == "f64"@ {
        Any::Double(0)
    } else if kind == "bool"@ {
        Any::Bool(true)
    } else {
        Any::Null
    }
}

/// The type tag for a printed type name: `i16`, `i32`, `i64`, `f32`, `f64`
/// and `bool` have their own tags, anything else is `Null`.
pub fn str_to_any(kind: &str) -> (r: Any)
    ensures
        r == spec_str_to_any(kind@),
{
    if str_eq(kind, "i32") {
        Any::Int(0)
    } else if str_eq(kind, "i16") {
        Any::Short(0)
    } else if str_eq(kind, "i64") {
        Any::Long(0)
    } else if str_eq(kind, "f32") {
        Any::Float(0)
    } else if str_eq(kind, "f64") {
        Any::Double(0)
    } else if str_eq(kind, "bool") {
        Any::Bool(true)
    } else {
        Any::Null
    }
}

/// The type tag for an integer type of the given width, `Null` for widths
/// without a tag of their own.
pub open spec fn spec_int_to_any(t: IntTy) -> Any {
    match t {
        IntTy::I16 => Any::Short(0),
        IntTy::I32 => Any::Int(0),
        IntTy::I64 => Any::Long(0),
        _ => Any::Null,
    }
}

/// The type tag for a type kind: integer kinds by their width, any other kind `Null`.
pub open spec fn spec_kind_to_any(kind: TyKind) -> Any {
    match kind {
        TyKind::Int(t) => spec_int_to_any(t),
        TyKind::Other => Any::Null,
    }
}

/// The type tag for a type kind.
pub fn kind_to_any(kind: &TyKind) -> (r: Any)
    ensures
        r == spec_kind_to_any(*kind),
{
    match kind {
        TyKind::Int(t) => match t {
            IntTy::I16 => Any::Short(0),
            IntTy::I32 => Any::Int(0),
            IntTy::I64 => Any::Long(0),
            _ => Any::Null,
        },
        _ => Any::Null,
    }
}

/// An integer type gets the same tag whether it is read from its printed name,
/// from its kind, or from a signature.
pub proof fn law_int_tags_agree(t: IntTy)
    ensures
        spec_prim_to_any(PrimTy::Int(t)) == Some(spec_kind_to_any(TyKind::Int(t))),
        t == IntTy::I16 ==> spec_str_to_any("i16"@) == spec_kind_to_any(TyKind::Int(t)),
        t == IntTy::I32 ==> spec_str_to_any("i32"@) == spec_kind_to_any(TyKind::Int(t)),
        t == IntTy::I64 ==> spec_str_to_any("i64"@) == spec_kind_to_any(TyKind::Int(t)),
{
    reveal_strlit("i16");
    reveal_strlit("i32");
    reveal_strlit("i64");
    assert("i16"@[1] != "i32"@[1]);
    assert("i64"@[1] != "i32"@[1]);
    assert("i64"@[1] != "i16"@[1]);
}

/// The tag recorded for a primitive type in a signature; `None` for the
/// primitive types that are not recorded at all (unsigned integers, `str`, `char`).
pub open spec fn spec_prim_to_any(p: PrimTy) -> Option<Any> {
    match p {
        PrimTy::Int(t) => Some(spec_int_to_any(t)),
        PrimTy::Float(FloatTy::F32) => Some(Any::Float(0)),
        PrimTy::Float(FloatTy::F64) => Some(Any::Double(0)),
        PrimTy::Bool => Some(Any::Bool(true)),
        _ => None,
    }
}

fn prim_to_any(p: &PrimTy) -> (r: Option<Any>)
    ensures
        r == spec_prim_to_any(*p),
{
    match p {
        PrimTy::Int(t) => Some(kind_to_any(&TyKind::Int(*t))),
        PrimTy::Float(FloatTy::F32) => Some(Any::Float(0)),
        PrimTy::Float(FloatTy::F64) => Some(Any::Double(0)),
        PrimTy::Bool => Some(Any::Bool(true)),
        _ => None,
    }
}

/// The parameter tags recorded for a list of parameter types: one tag for each
/// parameter whose type is a recorded primitive type, none for the others.
pub open spec fn spec_arg_tags(inputs: Seq<HirTy>) -> Seq<Any>
    decreases inputs.len(),
{
    if inputs.len() == 0 {
        seq![]
    } else {
        let r = spec_arg_tags(inputs.drop_last());
        match inputs.last() {
            HirTy::Prim(p) => match spec_prim_to_any(p) {
                Some(a) => r.push(a),
                None => r,
            },
            HirTy::Other => r,
        }
    }
}

/// The return tag recorded for a written return type.
pub open spec fn spec_ret_tag(output: Option<HirTy>) -> Any {
    match output {
        Some(HirTy::Prim(p)) => match spec_prim_to_any(p) {
            Some(a) => a,
            None => Any::Null,
        },
        _ => Any::Null,
    }
}

/// The name a primitive type is printed with, for the types that have a tag of their own.
pub open spec fn prim_name(p: PrimTy) -> Option<Seq<char>> {
    match p {
        PrimTy::Int(IntTy::I16) => Some("i16"@),
        PrimTy::Int(IntTy::I32) => Some("i32"@),
        PrimTy::Int(IntTy::I64) => Some("i64"@),
        PrimTy::Float(FloatTy::F32) => Some("f32"@),
        PrimTy::Float(FloatTy::F64) => Some("f64"@),
        PrimTy::Bool => Some("bool"@),
        _ => None,
    }
}

/// A primitive return type gets the tag that the same type gets as a
/// parameter (and `Null` when a parameter of that type is not recorded); for
/// the types with a printed name of their own, that tag is the one their name
/// gets as the type of a static.
pub proof fn law_return_tag_is_parameter_tag(p: PrimTy)
    ensures
        spec_arg_tags(seq![HirTy::Prim(p)]).len() <= 1,
        spec_ret_tag(Some(HirTy::Prim(p))) == (if spec_arg_tags(seq![HirTy::Prim(p)]).len() == 1 {
            spec_arg_tags(seq![HirTy::Prim(p)])[0]
        } else {
            Any::Null
        }),
        prim_name(p) matches Some(n) ==> spec_arg_tags(seq![HirTy::Prim(p)]) == seq![
            spec_str_to_any(n),
        ] && spec_ret_tag(Some(HirTy::Prim(p))) == spec_str_to_any(n),
        spec_ret_tag(Some(HirTy::Prim(PrimTy::Float(FloatTy::F32)))) == Any::Float(0),
        spec_ret_tag(Some(HirTy::Prim(PrimTy::Float(FloatTy::F64)))) == Any::Double(0),
{
    let one = seq![HirTy::Prim(p)];
    assert(one.drop_last() =~= Seq::<HirTy>::empty());
    assert(spec_arg_tags(one.drop_last()) == Seq::<Any>::empty());
    assert(one.last() == HirTy::Prim(p));
    assert(spec_arg_tags(one) == match spec_prim_to_any(p) {
        Some(a) => Seq::<Any>::empty().push(a),
        None => Seq::<Any>::empty(),
    });
    reveal_strlit("i16");
    reveal_strlit("i32");
    reveal_strlit("i64");
    reveal_strlit("f32");
    reveal_strlit("f64");
    reveal_strlit("bool");
    assert("i16"@[1] != "i32"@[1]);
    assert("i64"@[1] != "i32"@[1]);
    assert("i64"@[1] != "i16"@[1]);
    assert("f32"@[0] != "i32"@[0]);
    assert("f32"@[0] != "i16"@[0]);
    assert("f32"@[0] != "i64"@[0]);
    assert("f64"@[0] != "i32"@[0]);
    assert("f64"@[0] != "i16"@[0]);
    assert("f64"@[0] != "i64"@[0]);
    assert("f64"@[1] != "f32"@[1]);
    assert("bool"@.len() != "i32"@.len());
    assert("bool"@.len() != "i16"@.len());
    assert("bool"@.len() != "i64"@.len());
    assert("bool"@.len() != "f32"@.len());
    assert("bool"@.len() != "f64"@.len());
    let f32_one = seq![HirTy::Prim(PrimTy::Float(FloatTy::F32))];
    assert(f32_one.drop_last() =~= Seq::<HirTy>::empty());
}

/// The last string value of an `export_name` attribute.
pub open spec fn spec_export_name(attrs: Seq<Attribute>) -> Option<Seq<char>>
    decreases attrs.len(),
{
    if attrs.len() == 0 {
        None
    } else {
        match attrs.last() {
            Attribute::ExportName(Some(s)) => Some(s@),
            _ => spec_export_name(attrs.drop_last()),
        }
    }
}

/// Whether the attributes hold `no_mangle`.
pub open spec fn has_no_mangle(attrs: Seq<Attribute>) -> bool {
    exists|i: int| 0 <= i < attrs.len() && #[trigger] attrs[i] is NoMangle
}

/// The symbol an item is exported under: the value of its last `export_name`
/// attribute, else its own name if it is `no_mangle`; `None` when it is not exported.
pub open spec fn spec_symbol_name(attrs: Seq<Attribute>, ident: Seq<char>) -> Option<Seq<char>> {
    match spec_export_name(attrs) {
        Some(n) => Some(n),
        None => if has_no_mangle(attrs) {
            Some(ident)
        } else {
            None
        },
    }
}

proof fn lemma_export_name_none(attrs: Seq<Attribute>)
    requires
        forall|i: int| 0 <= i < attrs.len() ==> !(#[trigger] attrs[i] matches Attribute::ExportName(Some(_))),
    ensures
        spec_export_name(attrs) is None,
    decreases attrs.len(),
{
    if attrs.len() > 0 {
        let p = attrs.drop_last();
        assert forall|i: int| 0 <= i < p.len() implies !(#[trigger] p[i] matches Attribute::ExportName(Some(_))) by {
            assert(p[i] == attrs[i]);
        }
        assert(!(attrs[attrs.len() - 1] matches Attribute::ExportName(Some(_))));
        lemma_export_name_none(p);
    }
}

proof fn lemma_export_name_last(attrs: Seq<Attribute>, i: int, s: String)
    requires
        0 <= i < attrs.len(),
        attrs[i] == Attribute::ExportName(Some(s)),
        forall|j: int| i < j < attrs.len() ==> !(#[trigger] attrs[j] matches Attribute::ExportName(Some(_))),
    ensures
        spec_export_name(attrs) == Some(s@),
    decreases attrs.len(),
{
    if i < attrs.len() - 1 {
        let p = attrs.drop_last();
        assert(!(attrs[attrs.len() - 1] matches Attribute::ExportName(Some(_))));
        assert forall|j: int| i < j < p.len() implies !(#[trigger] p[j] matches Attribute::ExportName(Some(_))) by {
            assert(p[j] == attrs[j]);
        }
        assert(p[i] == attrs[i]);
        lemma_export_name_last(p, i, s);
    }
}

/// An item is exported under the value of its last `export_name` attribute
/// that has one; failing that, under its own name when any of its attributes is
/// `no_mangle`; failing that, not at all.
pub proof fn law_exported_name(attrs: Seq<Attribute>, ident: Seq<char>)
    ensures
        forall|i: int|
            0 <= i < attrs.len() && (forall|j: int|
                i < j < attrs.len() ==> !(#[trigger] attrs[j] matches Attribute::ExportName(Some(_))))
                ==> (#[trigger] attrs[i] matches Attribute::ExportName(Some(s)) ==> spec_symbol_name(
                attrs,
                ident,
            ) == Some(s@)),
        (forall|i: int| 0 <= i < attrs.len() ==> !(#[trigger] attrs[i] matches Attribute::ExportName(Some(_))))
            && (exists|i: int| 0 <= i < attrs.len() && #[trigger] attrs[i] == Attribute::NoMangle)
            ==> spec_symbol_name(attrs, ident) == Some(ident),
        (forall|i: int|
            0 <= i < attrs.len() ==> !(#[trigger] attrs[i] matches Attribute::ExportName(Some(_)))
                && attrs[i] != Attribute::NoMangle) ==> spec_symbol_name(attrs, ident) is None,
{
    assert forall|i: int|
        0 <= i < attrs.len() && (forall|j: int|
            i < j < attrs.len() ==> !(#[trigger] attrs[j] matches Attribute::ExportName(Some(_))))
        implies (#[trigger] attrs[i] matches Attribute::ExportName(Some(s)) ==> spec_symbol_name(
        attrs,
        ident,
    ) == Some(s@)) by {
        if let Attribute::ExportName(Some(s)) = attrs[i] {
            lemma_export_name_last(attrs, i, s);
        }
    }
    if forall|i: int| 0 <= i < attrs.len() ==> !(#[trigger] attrs[i] matches Attribute::ExportName(Some(_))) {
        lemma_export_name_none(attrs);
        if exists|i: int| 0 <= i < attrs.len() && #[trigger] attrs[i] == Attribute::NoMangle {
            let i = choose|i: int| 0 <= i < attrs.len() && #[trigger] attrs[i] == Attribute::NoMangle;
            assert(attrs[i] is NoMangle);
        }
    }
}

/// Adding an attribute that is neither `no_mangle` nor an `export_name` with a
/// value, anywhere among an item's attributes, does not change the name it is
/// exported under.
pub proof fn law_other_attributes_do_not_matter(
    attrs: Seq<Attribute>,
    i: int,
    a: Attribute,
    ident: Seq<char>,
)
    requires
        0 <= i <= attrs.len(),
        a == Attribute::Other || a == Attribute::ExportName(None),
    ensures
        spec_symbol_name(attrs.insert(i, a), ident) == spec_symbol_name(attrs, ident),
    decreases attrs.len(),
{
    let b = attrs.insert(i, a);
    lemma_export_name_insert(attrs, i, a);
    if has_no_mangle(attrs) {
        let k = choose|k: int| 0 <= k < attrs.len() && #[trigger] attrs[k] is NoMangle;
        if k < i {
            assert(b[k] == attrs[k]);
        } else {
            assert(b[k + 1] == attrs[k]);
        }
    }
    if has_no_mangle(b) {
        let k = choose|k: int| 0 <= k < b.len() && #[trigger] b[k] is NoMangle;
        if k < i {
            assert(b[k] == attrs[k]);
        } else if k > i {
            assert(b[k] == attrs[k - 1]);
        }
    }
}

proof fn lemma_export_name_insert(attrs: Seq<Attribute>, i: int, a: Attribute)
    requires
        0 <= i <= attrs.len(),
        a == Attribute::Other || a == Attribute::ExportName(None),
    ensures
        spec_export_name(attrs.insert(i, a)) == spec_export_name(attrs),
    decreases attrs.len(),
{
    let b = attrs.insert(i, a);
    if i == attrs.len() {
        assert(b.drop_last() =~= attrs);
    } else {
        assert(b.last() == attrs.last());
        assert(b.drop_last() =~= attrs.drop_last().insert(i, a));
        lemma_export_name_insert(attrs.drop_last(), i, a);
    }
}

/// No `export_name` value holds a NUL character.
pub open spec fn export_names_nul_free(attrs: Seq<Attribute>) -> bool {
    forall|i: int|
        0 <= i < attrs.len() ==> match #[trigger] attrs[i] {
            Attribute::ExportName(Some(s)) => !s@.contains('\0'),
            _ => true,
        }
}

/// Whether `s` holds a NUL character.
fn has_nul(s: &str) -> (r: bool)
    ensures
        r == s@.contains('\0'),
{
    let n = s.unicode_len();
    let mut i: usize = 0;
    while i < n
        invariant
            n == s@.len(),
            i <= n,
            forall|j: int| 0 <= j < i ==> s@[j] != '\0',
        decreases n - i,
    {
        if s.get_char(i) == '\0' {
            return true;
        }
        i = i + 1;
    }
    false
}

/// Whether no `export_name` value holds a NUL character (the compiler front end
/// stops on such an attribute).
pub fn export_names_valid(attrs: &Vec<Attribute>) -> (r: bool)
    ensures
        r == export_names_nul_free(attrs@),
{
    let mut i: usize = 0;
    while i < attrs.len()
        invariant
            i <= attrs@.len(),
            export_names_nul_free(attrs@.take(i as int)),
        decreases attrs@.len() - i,
    {
        match &attrs[i] {
            Attribute::ExportName(Some(s)) => {
                if has_nul(s.as_str()) {
                    assert(!export_names_nul_free(attrs@));
                    return false;
                }
            },
            _ => {},
        }
        assert forall|j: int| 0 <= j < i + 1 implies match #[trigger] attrs@.take(i + 1)[j] {
            Attribute::ExportName(Some(s)) => !s@.contains('\0'),
            _ => true,
        } by {
            if j < i {
                assert(attrs@.take(i + 1)[j] == attrs@.take(i as int)[j]);
            }
        }
        i = i + 1;
    }
    assert(attrs@.take(attrs@.len() as int) =~= attrs@);
    true
}

/// The symbol an item is exported under, if it is exported.
pub fn symbol_name(attrs: &Vec<Attribute>, ident: &str) -> (r: Option<String>)
    requires
        export_names_nul_free(attrs@),
    ensures
        match r {
            Some(s) => spec_symbol_name(attrs@, ident@) == Some(s@),
            None => spec_symbol_name(attrs@, ident@) is None,
        },
{
    let mut no_mangle = false;
    let mut export_name: Option<String> = None;
    let mut i: usize = 0;
    while i < attrs.len()
        invariant
            i <= attrs@.len(),
            no_mangle == has_no_mangle(attrs@.take(i as int)),
            match export_name {
                Some(s) => spec_export_name(attrs@.take(i as int)) == Some(s@),
                None => spec_export_name(attrs@.take(i as int)) is None,
            },
        decreases attrs@.len() - i,
    {
        let ghost t = attrs@.take(i + 1);
        assert(t.drop_last() =~= attrs@.take(i as int));
        assert(t.last() == attrs@[i as int]);
        match &attrs[i] {
            Attribute::NoMangle => {
                no_mangle = true;
                assert(t[i as int] is NoMangle);
            },
            Attribute::ExportName(Some(s)) => {
                export_name = Some(s.clone());
            },
            _ => {},
        }
        assert(no_mangle == has_no_mangle(t)) by {
            if has_no_mangle(t) && !(attrs@[i as int] is NoMangle) {
                let k = choose|k: int| 0 <= k < t.len() && #[trigger] t[k] is NoMangle;
                assert(attrs@.take(i as int)[k] == t[k]);
            }
            if has_no_mangle(attrs@.take(i as int)) {
                let k = choose|k: int|
                    0 <= k < attrs@.take(i as int).len() && #[trigger] attrs@.take(
                        i as int,
                    )[k] is NoMangle;
                assert(t[k] == attrs@.take(i as int)[k]);
            }
        }
        i = i + 1;
    }
    assert(attrs@.take(attrs@.len() as int) =~= attrs@);
    match export_name {
        Some(n) => Some(n),
        None => if no_mangle {
            Some(ident.to_owned())
        } else {
            None
        },
    }
}

/// The parameter tags recorded for a list of parameter types.
pub fn arg_tags(inputs: &Vec<HirTy>) -> (r: Vec<Any>)
    ensures
        r@ == spec_arg_tags(inputs@),
{
    let mut tags: Vec<Any> = Vec::new();
    let mut i: usize = 0;
    while i < inputs.len()
        invariant
            i <= inputs@.len(),
            tags@ == spec_arg_tags(inputs@.take(i as int)),
        decreases inputs@.len() - i,
    {
        let ghost t = inputs@.take(i + 1);
        assert(t.drop_last() =~= inputs@.take(i as int));
        assert(t.last() == inputs@[i as int]);
        match &inputs[i] {
            HirTy::Prim(p) => match prim_to_any(p) {
                Some(a) => tags.push(a),
                None => {},
            },
            HirTy::Other => {},
        }
        i = i + 1;
    }
    assert(inputs@.take(inputs@.len() as int) =~= inputs@);
    tags
}

/// The return tag recorded for a written return type.
pub fn ret_tag(output: &Option<HirTy>) -> (r: Any)
    ensures
        r == spec_ret_tag(*output),
{
    match output {
        Some(HirTy::Prim(p)) => match prim_to_any(p) {
            Some(a) => a,
            None => Any::Null,
        },
        _ => Any::Null,
    }
}

/// What recording one item does to a compilation result: an exported static
/// records the tag of its printed type, an exported function its signature;
/// items that are not exported, and other kinds of items, change nothing.
pub open spec fn spec_record_item(r: ResultView, item: Item) -> ResultView {
    match spec_symbol_name(item.attrs@, item.ident@) {
        None => r,
        Some(name) => match item.kind {
            ItemKind::Static { ty } => ResultView {
                variables: r.variables.insert(name, spec_str_to_any(ty@)),
                functions: r.functions,
                output: r.output,
            },
            ItemKind::Fn { sig, inputs, output } => ResultView {
                variables: r.variables,
                functions: r.functions.insert(
                    name,
                    FunctionView { args: spec_arg_tags(inputs@), ret: spec_ret_tag(output), sig: sig@ },
                ),
                output: r.output,
            },
            ItemKind::Other => r,
        },
    }
}

/// Recording an item a second time changes nothing more.
pub proof fn law_record_item_idempotent(r: ResultView, item: Item)
    ensures
        spec_record_item(spec_record_item(r, item), item) == spec_record_item(r, item),
{
    let once = spec_record_item(r, item);
    let twice = spec_record_item(once, item);
    assert(once.variables =~= twice.variables);
    assert(once.functions =~= twice.functions);
}

/// An item with neither `no_mangle` nor an `export_name` value is not exported,
/// and recording it changes nothing.
pub proof fn law_unexported_items_change_nothing(r: ResultView, item: Item)
    requires
        forall|i: int|
            0 <= i < item.attrs@.len() ==> !(#[trigger] item.attrs@[i] matches Attribute::ExportName(
                Some(_),
            )) && item.attrs@[i] != Attribute::NoMangle,
    ensures
        spec_record_item(r, item) == r,
{
    law_exported_name(item.attrs@, item.ident@);
}

/// Every static and function that recording a list of items adds is an item
/// of that kind among them, exported under that name.
pub proof fn law_recorded_names_are_exported(r: ResultView, items: Seq<Item>, k: Seq<char>)
    ensures
        spec_record_items(r, items).variables.contains_key(k) && !r.variables.contains_key(k)
            ==> exists|i: int|
            0 <= i < items.len() && #[trigger] items[i].kind is Static && spec_symbol_name(
                items[i].attrs@,
                items[i].ident@,
            ) == Some(k),
        spec_record_items(r, items).functions.contains_key(k) && !r.functions.contains_key(k)
            ==> exists|i: int|
            0 <= i < items.len() && #[trigger] items[i].kind is Fn && spec_symbol_name(
                items[i].attrs@,
                items[i].ident@,
            ) == Some(k),
    decreases items.len(),
{
    if items.len() > 0 {
        let p = items.drop_last();
        law_recorded_names_are_exported(r, p, k);
        let last = items.len() - 1;
        if spec_record_items(r, p).variables.contains_key(k) && !r.variables.contains_key(k) {
            let i = choose|i: int|
                0 <= i < p.len() && #[trigger] p[i].kind is Static && spec_symbol_name(
                    p[i].attrs@,
                    p[i].ident@,
                ) == Some(k);
            assert(items[i] == p[i]);
        }
        if spec_record_items(r, p).functions.contains_key(k) && !r.functions.contains_key(k) {
            let i = choose|i: int|
                0 <= i < p.len() && #[trigger] p[i].kind is Fn && spec_symbol_name(
                    p[i].attrs@,
                    p[i].ident@,
                ) == Some(k);
            assert(items[i] == p[i]);
        }
        assert(items[last] == items.last());
    }
}

/// What recording a list of items, one after the other, does to a compilation result.
pub open spec fn spec_record_items(r: ResultView, items: Seq<Item>) -> ResultView
    decreases items.len(),
{
    if items.len() == 0 {
        r
    } else {
        spec_record_item(spec_record_items(r, items.drop_last()), items.last())
    }
}

/// The item is not a static or a function, or its `export_name` values are
/// free of NUL characters (the attributes of other items are never read).
pub open spec fn item_nul_free(item: Item) -> bool {
    item.kind is Other || export_names_nul_free(item.attrs@)
}

/// Every item is `item_nul_free`.
pub open spec fn items_nul_free(items: Seq<Item>) -> bool {
    forall|i: int| 0 <= i < items.len() ==> item_nul_free(#[trigger] items[i])
}

/// Whether recording `item` reads no `export_name` value that holds a NUL
/// character (the compiler front end stops on such an attribute).
pub fn item_names_valid(item: &Item) -> (r: bool)
    ensures
        r == item_nul_free(*item),
{
    match &item.kind {
        ItemKind::Other => true,
        _ => export_names_valid(&item.attrs),
    }
}

/// Records one item in `result` if it is exported.
pub fn record_item(result: &mut CompilingResult, item: &Item)
    requires
        item_nul_free(*item),
    ensures
        final(result)@ == spec_record_item(old(result)@, *item),
{
    if let ItemKind::Other = &item.kind {
        return;
    }
    let name = match symbol_name(&item.attrs, item.ident.as_str()) {
        Some(n) => n,
        None => return,
    };
    match &item.kind {
        ItemKind::Static { ty } => {
            let tag = str_to_any(ty.as_str());
            let ghost n = name@;
            result.variables.insert(name, Varibale { ty: tag });
            assert(result@.variables =~= old(result)@.variables.insert(n, tag));
        },
        ItemKind::Fn { sig, inputs, output } => {
            let f = Function { args: arg_tags(inputs), ret: ret_tag(output), sig: sig.clone() };
            let ghost n = name@;
            let ghost fv = f@;
            result.functions.insert(name, f);
            assert(result@.functions =~= old(result)@.functions.insert(n, fv));
        },
        ItemKind::Other => {},
    }
}

/// Records the exported items of a crate whose library is written to `output_file`.
pub fn collect_exports(result: &mut CompilingResult, items: &Vec<Item>, output_file: &str)
    requires
        items_nul_free(items@),
    ensures
        final(result)@ == spec_record_items(
            ResultView {
                variables: old(result)@.variables,
                functions: old(result)@.functions,
                output: output_file@,
            },
            items@,
        ),
{
    result.output = output_file.to_owned();
    let ghost start = result@;
    let mut i: usize = 0;
    while i < items.len()
        invariant
            i <= items@.len(),
            items_nul_free(items@),
            result@ == spec_record_items(start, items@.take(i as int)),
        decreases items@.len() - i,
    {
        assert(items@.take(i + 1).drop_last() =~= items@.take(i as int));
        assert(item_nul_free(items@[i as int]));
        record_item(result, &items[i]);
        i = i + 1;
    }
    assert(items@.take(items@.len() as int) =~= items@);
}

/// The compiler's command line: the given arguments, then the sysroot (the
/// output of `rustc --print=sysroot` without surrounding whitespace) and the
/// request for a C-compatible dynamic library.
pub fn compiler_args(base: Vec<String>, sysroot_output: &str) -> (r: Vec<String>)
    ensures
        views(r@) == views(base@) + seq![
            "--sysroot"@,
            trim_ws(sysroot_output@),
            "--crate-type=cdylib"@,
        ],
{
    let mut args = base;
    let ghost b = views(args@);
    args.push("--sysroot".to_owned());
    args.push(trim(sysroot_output));
    args.push("--crate-type=cdylib".to_owned());
    assert(views(args@) =~= b + seq!["--sysroot"@, trim_ws(sysroot_output@), "--crate-type=cdylib"@]);
    args
}

/// Looks at an integer; does nothing with it.
pub fn inspect(a: i32) {
}

} // verus!
