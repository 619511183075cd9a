use invoker::any::Any;
use invoker::command::{parse_command, Command};
use invoker::compiler::{collect_exports, Attribute, CompilingResult, HirTy, IntTy, Item, ItemKind, PrimTy, FloatTy};
use invoker::invoker::{
    parse_arg, plan_args, return_kind, ArgSlot, CallPlan, Invoker, LoadStep, ReturnKind,
};

fn s(x: &str) -> String {
    x.to_string()
}

fn compiled() -> CompilingResult {
    let mut r = CompilingResult::default();
    let items = vec![
        Item {
            ident: s("add2"),
            attrs: vec![Attribute::NoMangle],
            kind: ItemKind::Fn {
                sig: s("fn(i32, i32) -> i32"),
                inputs: vec![HirTy::Prim(PrimTy::Int(IntTy::I32)), HirTy::Prim(PrimTy::Int(IntTy::I32))],
                output: Some(HirTy::Prim(PrimTy::Int(IntTy::I32))),
            },
        },
        Item {
            ident: s("scale"),
            attrs: vec![Attribute::NoMangle],
            kind: ItemKind::Fn {
                sig: s("fn(f64, i16) -> bool"),
                inputs: vec![HirTy::Prim(PrimTy::Float(FloatTy::F64)), HirTy::Prim(PrimTy::Int(IntTy::I16))],
                output: Some(HirTy::Prim(PrimTy::Bool)),
            },
        },
    ];
    collect_exports(&mut r, &items, "tmp/temp.so");
    r
}

#[test]
fn loading() {
    let mut inv = Invoker::default();
    assert_eq!(inv.begin_load(false), LoadStep::Missing);
    assert_eq!(inv.lib_path, "");
    assert_eq!(inv.begin_load(true), LoadStep::Compile { output: s("tmp/temp.so") });
    assert_eq!(inv.lib_path, "tmp/temp.so");
    inv.finish_load(Some(compiled()), 0x1000);
    assert_eq!(inv.lib, Some(0x1000));
    assert!(inv.inspect().is_some());
    assert_eq!(inv.begin_load(true), LoadStep::AlreadyLoaded);
    assert_eq!(inv.lib, Some(0x1000));
}

#[test]
fn loading_without_a_compilation_result() {
    let mut inv = Invoker::default();
    inv.begin_load(true);
    inv.finish_load(None, 7);
    assert!(inv.inspect().is_none());
    assert_eq!(inv.lib, Some(7));
}

#[test]
fn unloading() {
    let mut inv = Invoker::default();
    let u = inv.unload();
    assert!(!u.had_result);
    assert_eq!(u.closed, None);
    inv.begin_load(true);
    inv.finish_load(Some(compiled()), 42);
    let u = inv.unload();
    assert!(u.had_result);
    assert_eq!(u.closed, Some(42));
    assert_eq!(inv.lib, None);
    assert!(inv.compile_result.is_none());
    assert_eq!(inv.lib_path, "tmp/temp.so");
    assert!(matches!(inv.begin_load(true), LoadStep::Compile { .. }));
}

#[test]
fn arguments() {
    assert_eq!(parse_arg(&Any::Int(0), "-12"), ArgSlot::Value(Any::Int(-12)));
    assert_eq!(parse_arg(&Any::Short(0), "300"), ArgSlot::Value(Any::Short(300)));
    assert_eq!(parse_arg(&Any::Short(0), "70000"), ArgSlot::Invalid);
    assert_eq!(parse_arg(&Any::Long(0), "+5000000000"), ArgSlot::Value(Any::Long(5000000000)));
    assert_eq!(parse_arg(&Any::Int(0), "x"), ArgSlot::Invalid);
    assert_eq!(parse_arg(&Any::Float(0), "1.5"), ArgSlot::Float(s("1.5")));
    assert_eq!(parse_arg(&Any::Double(0), "2.5e3"), ArgSlot::Double(s("2.5e3")));
    assert_eq!(parse_arg(&Any::Bool(true), "true"), ArgSlot::Unsupported);
    assert_eq!(parse_arg(&Any::Null, "1"), ArgSlot::Unsupported);
    assert_eq!(plan_args(&vec![Any::Int(0)], &vec![]), None);
    assert_eq!(
        plan_args(&vec![Any::Int(0), Any::Double(0)], &vec![s("3"), s("4")]),
        Some(vec![ArgSlot::Value(Any::Int(3)), ArgSlot::Double(s("4"))])
    );
}

#[test]
fn return_kinds() {
    assert_eq!(return_kind(&Any::Int(0)), ReturnKind::Int);
    assert_eq!(return_kind(&Any::Short(0)), ReturnKind::Short);
    assert_eq!(return_kind(&Any::Long(0)), ReturnKind::Long);
    assert_eq!(return_kind(&Any::Float(0)), ReturnKind::Float);
    assert_eq!(return_kind(&Any::Double(0)), ReturnKind::Double);
    assert_eq!(return_kind(&Any::Null), ReturnKind::Unit);
    assert_eq!(return_kind(&Any::Bool(true)), ReturnKind::Unsupported);
}

#[test]
fn planning_calls() {
    let mut inv = Invoker::default();
    assert_eq!(inv.plan_call("add2", &vec![s("1"), s("2")]), CallPlan::NoSignature);
    inv.begin_load(true);
    inv.finish_load(Some(compiled()), 1);
    assert_eq!(
        inv.plan_call("add2", &vec![s("1"), s("2")]),
        CallPlan::Ready {
            args: vec![ArgSlot::Value(Any::Int(1)), ArgSlot::Value(Any::Int(2))],
            ret: ReturnKind::Int
        }
    );
    assert_eq!(inv.plan_call("add2", &vec![s("1")]), CallPlan::ArgCountMismatch);
    assert_eq!(inv.plan_call("nothere", &vec![]), CallPlan::NoSignature);
    assert_eq!(
        inv.plan_call("scale", &vec![s("0.5"), s("x")]),
        CallPlan::Ready { args: vec![ArgSlot::Double(s("0.5")), ArgSlot::Invalid], ret: ReturnKind::Unsupported }
    );
}

#[test]
fn parsed_arguments_have_the_parameter_type() {
    for (kind, text) in [(Any::Int(0), "5"), (Any::Short(0), "-5"), (Any::Long(0), "55")] {
        match parse_arg(&kind, text) {
            ArgSlot::Value(v) => assert_eq!(std::mem::discriminant(&v), std::mem::discriminant(&kind)),
            other => panic!("unexpected {:?}", other),
        }
    }
}

#[test]
fn commands() {
    assert_eq!(parse_command(""), Command::Empty);
    assert_eq!(parse_command("   "), Command::Empty);
    assert_eq!(parse_command("exit"), Command::Exit);
    assert_eq!(parse_command(" exit now"), Command::Exit);
    assert_eq!(parse_command("load test.rs"), Command::Load(s("test.rs")));
    assert_eq!(parse_command("load a b"), Command::Load(s("a")));
    assert_eq!(parse_command("load"), Command::LoadNothing);
    assert_eq!(parse_command("inspect"), Command::Inspect);
    assert_eq!(
        parse_command("call add2 1\t2"),
        Command::Call { func: s("add2"), args: vec![s("1"), s("2")] }
    );
    assert_eq!(parse_command("call run222"), Command::Call { func: s("run222"), args: vec![] });
    assert_eq!(parse_command("call"), Command::CallNothing);
    assert_eq!(parse_command("unload"), Command::Unload);
    assert_eq!(parse_command("Load x"), Command::Unknown);
    assert_eq!(parse_command("hello"), Command::Unknown);
}

#[test]
fn calls_need_a_loaded_library() {
    let mut inv = Invoker::default();
    assert_eq!(inv.begin_call(), None);
    inv.begin_load(true);
    inv.finish_load(None, 99);
    assert_eq!(inv.begin_call(), Some(99));
    inv.unload();
    assert_eq!(inv.begin_call(), None);
}

#[test]
fn each_handle_is_let_go_once() {
    let mut inv = Invoker::default();
    let mut closed: Vec<usize> = Vec::new();
    for h in [10usize, 20, 10] {
        assert!(matches!(inv.begin_load(true), LoadStep::Compile { .. }));
        inv.finish_load(None, h);
        assert_eq!(inv.begin_load(true), LoadStep::AlreadyLoaded);
        if let Some(c) = inv.unload().closed {
            closed.push(c);
        }
        assert_eq!(inv.unload().closed, None);
    }
    inv.begin_load(true);
    inv.finish_load(None, 30);
    assert_eq!(closed, vec![10, 20, 10]);
    assert_eq!(inv.lib, Some(30));
}
