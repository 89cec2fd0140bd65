use tinyvm_qjs::ast::m1 as tree;
use tinyvm_qjs::ast::{BinaryOp, Expr, Program, UnaryOp};
use tinyvm_qjs::diag::{Boundary, host_table, malformed, unsupported};
use tinyvm_qjs::emit::lower;
use tinyvm_qjs::emit::m1::{debug_name, list, static_type};
use tinyvm_qjs::encode::{FuncBody, ValueType, code_section, encode, name, section};
use tinyvm_qjs::ir::m1;
use tinyvm_qjs::ir::{ExportKind, Ins, ValType};
use tinyvm_qjs::leb::{signed_32, signed_64, unsigned};
use tinyvm_qjs::order::less_than;

fn leb_u(v: u32) -> Vec<u8> {
    let mut out = Vec::new();
    unsigned(&mut out, v);
    out
}

fn leb_s32(v: i32) -> Vec<u8> {
    let mut out = Vec::new();
    signed_32(&mut out, v);
    out
}

fn leb_s64(v: i64) -> Vec<u8> {
    let mut out = Vec::new();
    signed_64(&mut out, v);
    out
}

#[test]
fn unsigned_leb128_is_minimal() {
    assert_eq!(leb_u(0), vec![0x00]);
    assert_eq!(leb_u(127), vec![0x7f]);
    assert_eq!(leb_u(128), vec![0x80, 0x01]);
    assert_eq!(leb_u(624485), vec![0xe5, 0x8e, 0x26]);
    assert_eq!(leb_u(u32::MAX), vec![0xff, 0xff, 0xff, 0xff, 0x0f]);
}

#[test]
fn signed_leb128_is_minimal() {
    assert_eq!(leb_s32(0), vec![0x00]);
    assert_eq!(leb_s32(63), vec![0x3f]);
    assert_eq!(leb_s32(64), vec![0xc0, 0x00]);
    assert_eq!(leb_s32(-1), vec![0x7f]);
    assert_eq!(leb_s32(-64), vec![0x40]);
    assert_eq!(leb_s32(-65), vec![0xbf, 0x7f]);
    assert_eq!(leb_s32(-123456), vec![0xc0, 0xbb, 0x78]);
    assert_eq!(leb_s32(i32::MIN), vec![0x80, 0x80, 0x80, 0x80, 0x78]);
    assert_eq!(leb_s64(i64::MIN), vec![0x80, 0x80, 0x80, 0x80, 0x80, 0x80, 0x80, 0x80, 0x80, 0x7f]);
    assert_eq!(leb_s64(i64::MAX).len(), 10);
}

#[test]
fn byte_order_is_lexicographic() {
    assert!(less_than(b"a", b"b"));
    assert!(less_than(b"ab", b"abc"));
    assert!(!less_than(b"abc", b"ab"));
    assert!(!less_than(b"same", b"same"));
    assert!(less_than("Z".as_bytes(), "é".as_bytes()));
}

#[test]
fn diagnostics_read_as_sentences() {
    let e = unsupported(Boundary::FullJs, "the `eval` function", 7);
    assert_eq!(e.message, "this engine does not support the `eval` function yet");
    assert_eq!(e.offset, 7);
    assert_eq!(e.boundary, Boundary::FullJs);
    assert_eq!(e.rendered(), "this engine does not support the `eval` function yet (at byte 7)");
    let e = host_table("has no host function named `f`", 3);
    assert_eq!(e.message, "this engine has no host function named `f`");
    assert_eq!(e.boundary, Boundary::ThirdBinding);
    let e = malformed("needs a `)` here", 12);
    assert_eq!(e.message, "this engine needs a `)` here");
    assert_eq!(e.boundary, Boundary::Subset);
    assert_eq!(e.rendered(), "this engine needs a `)` here (at byte 12)");
}

#[test]
fn boundaries_have_terse_summaries() {
    assert_eq!(Boundary::FullJs.terse(), "full JS needs a runtime this engine does not emit yet");
    assert_eq!(Boundary::ThirdBinding.terse(), "the world is only the two bindings; this needs a third");
    assert_eq!(Boundary::Subset.terse(), "outside the expression subset this engine lowers");
}

fn host(name: &str) -> Box<Expr> {
    Box::new(Expr::Host(name.to_string()))
}

#[test]
fn lowering_imports_hosts_sorted_and_exports_main() {
    // $1 - (-zeta) * alpha
    let expr = Expr::Binary(
        BinaryOp::Sub,
        Box::new(Expr::Arg(1)),
        Box::new(Expr::Binary(
            BinaryOp::Mul,
            Box::new(Expr::Unary(UnaryOp::Neg, host("zeta"))),
            host("alpha"),
        )),
    );
    let module = lower(&Program { expr });
    let names: Vec<&str> = module.imports.iter().map(|i| i.name.as_str()).collect();
    assert_eq!(names, vec!["alpha", "zeta"]);
    assert!(module.imports.iter().all(|i| i.module == "js" && i.type_index == 0));
    assert_eq!(module.types.len(), 2);
    assert!(module.types[0].params.is_empty());
    assert_eq!(module.types[0].results, vec![ValType::I32]);
    assert_eq!(module.types[1].params, vec![ValType::I32, ValType::I32]);
    assert_eq!(module.funcs.len(), 1);
    assert_eq!(module.funcs[0].type_index, 1);
    assert_eq!(
        module.funcs[0].body,
        vec![
            Ins::LocalGet(1),
            Ins::I32Const(0),
            Ins::Call(1),
            Ins::I32Sub,
            Ins::Call(0),
            Ins::I32Mul,
            Ins::I32Sub,
        ]
    );
    assert_eq!(module.exports.len(), 1);
    assert_eq!(module.exports[0].name, "main");
    assert_eq!(module.exports[0].kind, ExportKind::Func);
    assert_eq!(module.exports[0].index, 2);
}

#[test]
fn a_host_name_used_twice_is_imported_once() {
    let expr = Expr::Binary(BinaryOp::Add, host("g"), host("g"));
    let module = lower(&Program { expr });
    assert_eq!(module.imports.len(), 1);
    assert_eq!(module.funcs[0].body, vec![Ins::Call(0), Ins::Call(0), Ins::I32Add]);
    // No parameters: `main` shares the host signature.
    assert_eq!(module.types.len(), 1);
    assert_eq!(module.funcs[0].type_index, 0);
}

#[test]
fn a_program_without_hosts_has_no_import_section() {
    let module = lower(&Program { expr: Expr::Binary(BinaryOp::Rem, Box::new(Expr::Int(7)), Box::new(Expr::Arg(2))) });
    assert!(module.imports.is_empty());
    assert_eq!(module.types.len(), 1);
    assert_eq!(module.types[0].params.len(), 3);
    assert_eq!(module.exports[0].index, 0);
    let bytes = encode(&module);
    assert_eq!(
        bytes,
        vec![
            0x00, 0x61, 0x73, 0x6d, 0x01, 0x00, 0x00, 0x00, // header
            0x01, 0x08, 0x01, 0x60, 0x03, 0x7f, 0x7f, 0x7f, 0x01, 0x7f, // type
            0x03, 0x02, 0x01, 0x00, // function
            0x07, 0x08, 0x01, 0x04, b'm', b'a', b'i', b'n', 0x00, 0x00, // export
            0x0a, 0x09, 0x01, 0x07, 0x00, 0x41, 0x07, 0x20, 0x02, 0x6f, 0x0b, // code
        ]
    );
}

#[test]
fn a_lowered_program_encodes_byte_exact() {
    let expr = Expr::Binary(BinaryOp::Add, Box::new(Expr::Int(1)), host("g"));
    let bytes = encode(&lower(&Program { expr }));
    assert_eq!(
        bytes,
        vec![
            0x00, 0x61, 0x73, 0x6d, 0x01, 0x00, 0x00, 0x00, // header
            0x01, 0x05, 0x01, 0x60, 0x00, 0x01, 0x7f, // type
            0x02, 0x08, 0x01, 0x02, b'j', b's', 0x01, b'g', 0x00, 0x00, // import
            0x03, 0x02, 0x01, 0x00, // function
            0x07, 0x08, 0x01, 0x04, b'm', b'a', b'i', b'n', 0x00, 0x01, // export
            0x0a, 0x09, 0x01, 0x07, 0x00, 0x41, 0x01, 0x10, 0x00, 0x6a, 0x0b, // code
        ]
    );
}

#[test]
fn assemble_writes_a_name_section_for_named_functions() {
    let module = m1::Module {
        types: vec![m1::FuncType { params: vec![], results: vec![m1::ValType::I32] }],
        imports: vec![],
        table: None,
        memory: None,
        globals: vec![],
        funcs: vec![m1::Func {
            name: Some("main".to_string()),
            site: None,
            type_index: 0,
            locals: vec![],
            body: vec![m1::Ins::I32Const(7)],
        }],
        elements: vec![],
        data: vec![],
        exports: vec![m1::Export { name: "main".to_string(), index: 0 }],
    };
    let bytes = m1::assemble(&module);
    assert_eq!(
        bytes,
        vec![
            0x00, 0x61, 0x73, 0x6d, 0x01, 0x00, 0x00, 0x00, // header
            0x01, 0x05, 0x01, 0x60, 0x00, 0x01, 0x7f, // type
            0x03, 0x02, 0x01, 0x00, // function
            0x07, 0x08, 0x01, 0x04, b'm', b'a', b'i', b'n', 0x00, 0x00, // export
            0x0a, 0x06, 0x01, 0x04, 0x00, 0x41, 0x07, 0x0b, // code
            0x00, 0x0e, 0x04, b'n', b'a', b'm', b'e', 0x01, 0x07, 0x01, 0x00, 0x04, b'm', b'a', b'i',
            b'n', // name
        ]
    );
}

#[test]
fn host_lists_read_as_sentences() {
    assert_eq!(list(&[]), "no host functions at all");
    assert_eq!(list(&["log"]), "`log`");
    assert_eq!(list(&["a", "b"]), "`a` and `b`");
    assert_eq!(list(&["a", "b", "c"]), "`a`, `b` and `c`");
}

#[test]
fn functions_are_named_for_the_name_section() {
    let function = |name: Option<&str>, at: usize| tree::Function {
        name: name.map(|n| n.to_string()),
        params: vec![],
        bindings: vec![],
        body: vec![],
        span: tree::Span(at),
        captures: vec![],
    };
    let program = tree::Program {
        functions: vec![function(None, 0), function(Some("add"), 9), function(None, 42)],
        bindings: vec![],
        arg_count: 0,
    };
    assert_eq!(debug_name(&program, tree::FuncId(0)), "main");
    assert_eq!(debug_name(&program, tree::FuncId(1)), "add");
    assert_eq!(debug_name(&program, tree::FuncId(2)), "<anonymous@42>");
}

#[test]
fn operators_know_how_they_are_written() {
    assert_eq!(tree::BinaryOp::Add.symbol(), "+");
    assert_eq!(tree::BinaryOp::Rem.symbol(), "%");
    assert_eq!(tree::BinaryOp::Le.symbol(), "<=");
    assert_eq!(tree::BinaryOp::Ne.symbol(), "!=");
}

#[test]
fn static_types_are_named_only_when_certain() {
    let e = |kind: tree::ExprKind| tree::Expr { kind, span: tree::Span(0) };
    assert_eq!(static_type(&e(tree::ExprKind::Int(1))), Some("a Number"));
    assert_eq!(static_type(&e(tree::ExprKind::Str("s".to_string()))), Some("a String"));
    assert_eq!(static_type(&e(tree::ExprKind::Null)), Some("Null"));
    assert_eq!(
        static_type(&e(tree::ExprKind::Unary(tree::UnaryOp::Not, Box::new(e(tree::ExprKind::Arg(0)))))),
        Some("a Boolean")
    );
    assert_eq!(
        static_type(&e(tree::ExprKind::Unary(tree::UnaryOp::TypeOf, Box::new(e(tree::ExprKind::Arg(0)))))),
        Some("a String")
    );
    assert_eq!(static_type(&e(tree::ExprKind::Arg(0))), None);
    assert_eq!(static_type(&e(tree::ExprKind::Array(vec![]))), None);
}

#[test]
fn a_section_carries_its_length() {
    let mut out = vec![0xaa];
    section(&mut out, 5, &[1, 2, 3]);
    assert_eq!(out, vec![0xaa, 5, 3, 1, 2, 3]);
    let mut out = Vec::new();
    section(&mut out, 0, &[7u8; 200]);
    assert_eq!(&out[..3], &[0, 0xc8, 0x01]);
    assert_eq!(out.len(), 203);
}

#[test]
fn a_name_carries_its_byte_length() {
    let mut out = Vec::new();
    name(&mut out, "é");
    assert_eq!(out, vec![2, 0xc3, 0xa9]);
    assert_eq!(String::from_utf8(out[1..].to_vec()).unwrap(), "é");
}

#[test]
fn every_call_in_main_targets_an_import() {
    let expr = Expr::Binary(
        BinaryOp::Div,
        Box::new(Expr::Binary(BinaryOp::Add, host("c"), host("a"))),
        Box::new(Expr::Binary(BinaryOp::Sub, host("b"), Box::new(Expr::Arg(4)))),
    );
    let module = lower(&Program { expr });
    for ins in &module.funcs[0].body {
        match ins {
            Ins::Call(f) => assert!((*f as usize) < module.imports.len()),
            Ins::LocalGet(n) => assert!((*n as usize) < module.types[module.funcs[0].type_index as usize].params.len()),
            _ => {}
        }
    }
    assert_eq!(module.types[module.funcs[0].type_index as usize].params.len(), 5);
}

#[test]
fn the_import_table_depends_only_on_the_names_used() {
    let one = lower(&Program { expr: Expr::Binary(BinaryOp::Add, host("b"), host("a")) });
    let two = lower(&Program {
        expr: Expr::Binary(BinaryOp::Mul, host("a"), Box::new(Expr::Binary(BinaryOp::Sub, host("b"), host("a")))),
    });
    assert_eq!(one.imports, two.imports);
    assert_eq!(one.types, two.types);
}

#[test]
fn a_code_entry_is_sized_and_ends_with_end() {
    let body = FuncBody { locals: vec![(2, ValueType::I64), (1, ValueType::F64)], code: vec![0x41, 0x05] };
    let mut out = Vec::new();
    code_section(&mut out, &[body]);
    assert_eq!(out, vec![0x0a, 0x0a, 0x01, 0x08, 0x02, 0x02, 0x7e, 0x01, 0x7c, 0x41, 0x05, 0x0b]);
}
