use invoker::any::Any;
use invoker::compiler::{
    arg_tags, collect_exports, item_names_valid, compiler_args, export_names_valid, inspect, kind_to_any,
    record_item, ret_tag, str_to_any, symbol_name, Attribute, CompilingResult, FloatTy, HirTy,
    IntTy, Item, ItemKind, PrimTy, TyKind,
};

fn s(x: &str) -> String {
    x.to_string()
}

fn int_ty(t: IntTy) -> HirTy {
    HirTy::Prim(PrimTy::Int(t))
}

/// The exported items of the sample library the invoker compiles.
fn sample_items() -> Vec<Item> {
    vec![
        Item { ident: s("STA"), attrs: vec![Attribute::NoMangle], kind: ItemKind::Static { ty: s("i32") } },
        Item {
            ident: s("run"),
            attrs: vec![Attribute::ExportName(Some(s("run222")))],
            kind: ItemKind::Fn { sig: s("extern \"C\" fn() {run}"), inputs: vec![], output: None },
        },
        Item {
            ident: s("add1"),
            attrs: vec![Attribute::NoMangle],
            kind: ItemKind::Fn { sig: s("unsafe fn(i32) -> i32 {add1}"), inputs: vec![int_ty(IntTy::I32)], output: Some(int_ty(IntTy::I32)) },
        },
        Item {
            ident: s("add2"),
            attrs: vec![Attribute::NoMangle],
            kind: ItemKind::Fn {
                sig: s("unsafe fn(i32, i32) -> i32 {add2}"),
                inputs: vec![int_ty(IntTy::I32), int_ty(IntTy::I32)],
                output: Some(int_ty(IntTy::I32)),
            },
        },
        Item {
            ident: s("greet"),
            attrs: vec![Attribute::NoMangle],
            kind: ItemKind::Fn { sig: s("unsafe fn(*const i8) {greet}"), inputs: vec![HirTy::Other], output: None },
        },
        Item {
            ident: s("greet2"),
            attrs: vec![],
            kind: ItemKind::Fn { sig: s("unsafe fn(*mut i8) {greet2}"), inputs: vec![HirTy::Other], output: None },
        },
        Item { ident: s("create_lib"), attrs: vec![Attribute::Other], kind: ItemKind::Fn { sig: s("fn() {create_lib}"), inputs: vec![], output: None } },
        Item { ident: s("Library"), attrs: vec![Attribute::NoMangle], kind: ItemKind::Other },
    ]
}

#[test]
fn type_names_to_tags() {
    assert_eq!(str_to_any("i32"), Any::Int(0));
    assert_eq!(str_to_any("i16"), Any::Short(0));
    assert_eq!(str_to_any("i64"), Any::Long(0));
    assert_eq!(str_to_any("f32"), Any::Float(0));
    assert_eq!(str_to_any("f64"), Any::Double(0));
    assert_eq!(str_to_any("bool"), Any::Bool(true));
    assert_eq!(str_to_any("u32"), Any::Null);
    assert_eq!(str_to_any("&str"), Any::Null);
    assert_eq!(str_to_any(""), Any::Null);
}

#[test]
fn kinds_to_tags() {
    assert_eq!(kind_to_any(&TyKind::Int(IntTy::I16)), Any::Short(0));
    assert_eq!(kind_to_any(&TyKind::Int(IntTy::I32)), Any::Int(0));
    assert_eq!(kind_to_any(&TyKind::Int(IntTy::I64)), Any::Long(0));
    assert_eq!(kind_to_any(&TyKind::Int(IntTy::I8)), Any::Null);
    assert_eq!(kind_to_any(&TyKind::Int(IntTy::I128)), Any::Null);
    assert_eq!(kind_to_any(&TyKind::Other), Any::Null);
}

#[test]
fn integer_tags_agree() {
    for (t, name) in [(IntTy::I16, "i16"), (IntTy::I32, "i32"), (IntTy::I64, "i64")] {
        assert_eq!(kind_to_any(&TyKind::Int(t)), str_to_any(name));
        assert_eq!(arg_tags(&vec![int_ty(t)]), vec![str_to_any(name)]);
    }
}

#[test]
fn signature_tags() {
    let inputs = vec![
        int_ty(IntTy::I16),
        HirTy::Prim(PrimTy::Uint),
        int_ty(IntTy::I8),
        HirTy::Prim(PrimTy::Float(FloatTy::F32)),
        HirTy::Other,
        HirTy::Prim(PrimTy::Float(FloatTy::F64)),
        HirTy::Prim(PrimTy::Bool),
        HirTy::Prim(PrimTy::Char),
        HirTy::Prim(PrimTy::Str),
    ];
    assert_eq!(
        arg_tags(&inputs),
        vec![Any::Short(0), Any::Null, Any::Float(0), Any::Double(0), Any::Bool(true)]
    );
    assert_eq!(ret_tag(&None), Any::Null);
    assert_eq!(ret_tag(&Some(int_ty(IntTy::I64))), Any::Long(0));
    assert_eq!(ret_tag(&Some(HirTy::Prim(PrimTy::Uint))), Any::Null);
    assert_eq!(ret_tag(&Some(HirTy::Other)), Any::Null);
    assert_eq!(ret_tag(&Some(HirTy::Prim(PrimTy::Bool))), Any::Bool(true));
}

#[test]
fn exported_names() {
    assert_eq!(symbol_name(&vec![], "f"), None);
    assert_eq!(symbol_name(&vec![Attribute::Other], "f"), None);
    assert_eq!(symbol_name(&vec![Attribute::NoMangle], "f"), Some(s("f")));
    assert_eq!(symbol_name(&vec![Attribute::ExportName(Some(s("g")))], "f"), Some(s("g")));
    assert_eq!(
        symbol_name(&vec![Attribute::NoMangle, Attribute::ExportName(Some(s("g")))], "f"),
        Some(s("g"))
    );
    assert_eq!(
        symbol_name(&vec![Attribute::ExportName(Some(s("g"))), Attribute::NoMangle], "f"),
        Some(s("g"))
    );
    assert_eq!(
        symbol_name(
            &vec![Attribute::ExportName(Some(s("g"))), Attribute::ExportName(Some(s("h")))],
            "f"
        ),
        Some(s("h"))
    );
    assert_eq!(symbol_name(&vec![Attribute::ExportName(None)], "f"), None);
    assert_eq!(symbol_name(&vec![Attribute::ExportName(None), Attribute::NoMangle], "f"), Some(s("f")));
}

#[test]
fn export_names_with_nul() {
    assert!(export_names_valid(&vec![Attribute::ExportName(Some(s("ok"))), Attribute::NoMangle]));
    assert!(export_names_valid(&vec![Attribute::ExportName(None)]));
    assert!(!export_names_valid(&vec![Attribute::ExportName(Some(s("a\0b")))]));
    assert!(!export_names_valid(&vec![
        Attribute::ExportName(Some(s("bad\0"))),
        Attribute::ExportName(Some(s("good"))),
    ]));
}

#[test]
fn collecting_the_sample_library() {
    let mut result = CompilingResult::default();
    collect_exports(&mut result, &sample_items(), "tmp/temp.so");
    assert_eq!(result.output, "tmp/temp.so");
    assert_eq!(result.variables.get("STA").map(|v| &v.ty), Some(&Any::Int(0)));
    assert!(result.variables.get("run222").is_none());
    let run = result.functions.get("run222").unwrap();
    assert!(run.args.is_empty());
    assert_eq!(run.ret, Any::Null);
    assert!(result.functions.get("run").is_none());
    let add1 = result.functions.get("add1").unwrap();
    assert_eq!(add1.args, vec![Any::Int(0)]);
    assert_eq!(add1.ret, Any::Int(0));
    assert_eq!(add1.sig, "unsafe fn(i32) -> i32 {add1}");
    let add2 = result.functions.get("add2").unwrap();
    assert_eq!(add2.args, vec![Any::Int(0), Any::Int(0)]);
    let greet = result.functions.get("greet").unwrap();
    assert!(greet.args.is_empty());
    assert!(result.functions.get("greet2").is_none());
    assert!(result.functions.get("create_lib").is_none());
    assert!(result.functions.get("Library").is_none());
    assert!(result.variables.get("Library").is_none());
    assert_eq!(result.functions.entries().len(), 4);
    assert_eq!(result.variables.entries().len(), 1);
}

#[test]
fn recording_an_item_twice() {
    let items = sample_items();
    let mut once = CompilingResult::default();
    record_item(&mut once, &items[2]);
    let mut twice = CompilingResult::default();
    record_item(&mut twice, &items[2]);
    record_item(&mut twice, &items[2]);
    assert_eq!(once.functions.entries(), twice.functions.entries());
    assert_eq!(once.variables.entries(), twice.variables.entries());
}

#[test]
fn later_items_replace_earlier_ones() {
    let mut result = CompilingResult::default();
    let a = Item { ident: s("v"), attrs: vec![Attribute::NoMangle], kind: ItemKind::Static { ty: s("i16") } };
    let b = Item { ident: s("w"), attrs: vec![Attribute::ExportName(Some(s("v")))], kind: ItemKind::Static { ty: s("f64") } };
    collect_exports(&mut result, &vec![a, b], "out.so");
    assert_eq!(result.variables.get("v").map(|v| &v.ty), Some(&Any::Double(0)));
    assert_eq!(result.variables.entries().len(), 1);
}

#[test]
fn command_line_for_the_compiler() {
    let base = vec![s("invoker")];
    let args = compiler_args(base, "/opt/rust/toolchain\n");
    assert_eq!(args, vec![s("invoker"), s("--sysroot"), s("/opt/rust/toolchain"), s("--crate-type=cdylib")]);
}

#[test]
fn inspecting_an_integer() {
    inspect(5);
}

#[test]
fn nul_names_matter_only_for_statics_and_functions() {
    let bad = vec![Attribute::ExportName(Some(s("x\0")))];
    let other = Item { ident: s("S"), attrs: bad.clone_attrs(), kind: ItemKind::Other };
    assert!(item_names_valid(&other));
    let st = Item { ident: s("S"), attrs: bad.clone_attrs(), kind: ItemKind::Static { ty: s("i32") } };
    assert!(!item_names_valid(&st));
    let f = Item { ident: s("f"), attrs: bad, kind: ItemKind::Fn { sig: s("fn()"), inputs: vec![], output: None } };
    assert!(!item_names_valid(&f));
    let mut result = CompilingResult::default();
    collect_exports(&mut result, &vec![other], "o.so");
    assert_eq!(result.variables.entries().len(), 0);
    assert_eq!(result.functions.entries().len(), 0);
}

trait CloneAttrs {
    fn clone_attrs(&self) -> Vec<Attribute>;
}

impl CloneAttrs for Vec<Attribute> {
    fn clone_attrs(&self) -> Vec<Attribute> {
        self.iter()
            .map(|a| match a {
                Attribute::NoMangle => Attribute::NoMangle,
                Attribute::ExportName(n) => Attribute::ExportName(n.clone()),
                Attribute::Other => Attribute::Other,
            })
            .collect()
    }
}
