use fowl::analyzer_ast as a;
use fowl::bir::bir;
use fowl::bir_ast as b;
use fowl::codegen::{
    collect_closures_in_program, function_linkage, string_data, trampoline_name, type_from_ast,
    Linkage, MachineType,
};
use fowl::source_span::Span;

fn sp() -> Span<'static> {
    Span::new(0, 1, "main.fo", "x")
}

fn id(name: &'static str) -> a::Ident<'static> {
    a::Ident { inner: name, span: sp() }
}

fn var(name: &'static str, ty: a::TypeKind<'static>) -> a::Expr<'static> {
    a::Expr::Ident { ident: id(name), ty }
}

fn let_(name: &'static str, mutable: bool, expr: a::Expr<'static>) -> a::Statement<'static> {
    a::Statement::Let { name: id(name), ty: a::TypeKind::Int, expr, mutable, span: sp() }
}

fn block(statements: Vec<a::Statement<'static>>) -> a::Block<'static> {
    a::Block { span: sp(), statements, ty: a::TypeKind::Void }
}

fn closure(body: Vec<a::Statement<'static>>) -> a::Expr<'static> {
    a::Expr::Closure(a::Closure { params: vec![], ret_ty: a::TypeKind::Void, body: block(body) })
}

fn main_fn(statements: Vec<a::Statement<'static>>) -> a::Declaration<'static> {
    a::Declaration::Function(a::Function {
        span: sp(),
        name: "main".to_string(),
        params: vec![],
        ret_ty: a::TypeKind::Void,
        body: block(statements),
        vis: a::Vis::Private,
    })
}

fn lowered_main<'a>(program: &'a b::Program<'static>) -> &'a b::Function<'static> {
    match &program.declarations[0] {
        b::Declaration::Function(f) => f,
        _ => panic!("expected a function"),
    }
}

#[test]
fn lowering_keeps_names_and_visibility() {
    let program = a::Program {
        declarations: vec![a::Declaration::Function(a::Function {
            span: sp(),
            name: "pkg.main.helper".to_string(),
            params: vec![],
            ret_ty: a::TypeKind::Int,
            body: block(vec![a::Statement::Return { span: sp(), expr: Some(a::Expr::IntLiteral(3)), ty: a::TypeKind::Int }]),
            vis: a::Vis::Public,
        })],
    };
    let out = bir(program);
    let f = lowered_main(&out);
    assert_eq!(f.name, "pkg.main.helper");
    assert!(f.public);
    assert!(matches!(f.ret_ty, b::TypeKind::Int));
    assert!(matches!(f.body.statements[0], b::Statement::Return { expr: Some(b::Expr::IntLiteral(3)) }));
}

#[test]
fn closures_are_numbered_inner_first() {
    // let outer = || { let inner = || {}; };
    let inner = closure(vec![]);
    let outer = closure(vec![let_("inner", false, inner)]);
    let program = a::Program { declarations: vec![main_fn(vec![let_("outer", false, outer)])] };
    let out = bir(program);
    let f = lowered_main(&out);
    match &f.body.statements[0] {
        b::Statement::Let { expr: b::Expr::Closure { mangled_name, body, .. }, .. } => {
            assert_eq!(mangled_name, "__closure_1");
            match &body.statements[0] {
                b::Statement::Let { expr: b::Expr::Closure { mangled_name, .. }, .. } => {
                    assert_eq!(mangled_name, "__closure_0")
                }
                _ => panic!("expected the inner closure"),
            }
        }
        _ => panic!("expected the outer closure"),
    }
}

#[test]
fn closures_capture_free_variables_once() {
    // let mut count = 1; let total = 2; let f = || { let local = count; count + total + local + count };
    let body = vec![
        let_("local", false, var("count", a::TypeKind::Int)),
        a::Statement::Expr(a::Expr::Binary {
            op: a::BinaryOp::Add,
            left: Box::new(a::Expr::Binary {
                op: a::BinaryOp::Add,
                left: Box::new(var("count", a::TypeKind::Int)),
                right: Box::new(var("total", a::TypeKind::Int)),
                ty: a::TypeKind::Int,
            }),
            right: Box::new(a::Expr::Binary {
                op: a::BinaryOp::Add,
                left: Box::new(var("local", a::TypeKind::Int)),
                right: Box::new(var("count", a::TypeKind::Int)),
                ty: a::TypeKind::Int,
            }),
            ty: a::TypeKind::Int,
        }),
    ];
    let program = a::Program {
        declarations: vec![main_fn(vec![
            let_("count", true, a::Expr::IntLiteral(1)),
            let_("total", false, a::Expr::IntLiteral(2)),
            let_("f", false, closure(body)),
        ])],
    };
    let out = bir(program);
    let f = lowered_main(&out);
    match &f.body.statements[2] {
        b::Statement::Let { expr: b::Expr::Closure { mangled_name, captures, .. }, .. } => {
            assert_eq!(mangled_name, "__closure_0");
            let mut names: Vec<(String, bool)> = captures.iter().map(|(n, _, m)| (n.clone(), *m)).collect();
            names.sort();
            assert_eq!(names, vec![("count".to_string(), true), ("total".to_string(), false)]);
        }
        _ => panic!("expected a closure"),
    }
}

#[test]
fn decimal_closure_names() {
    let mut statements = Vec::new();
    for _ in 0..12 {
        statements.push(a::Statement::Expr(closure(vec![])));
    }
    let program = a::Program { declarations: vec![main_fn(statements)] };
    let out = bir(program);
    let f = lowered_main(&out);
    match &f.body.statements[11] {
        b::Statement::Expr(b::Expr::Closure { mangled_name, .. }) => assert_eq!(mangled_name, "__closure_11"),
        _ => panic!("expected a closure"),
    }
}

#[test]
fn trampolines_are_collected_in_order() {
    let inner = closure(vec![]);
    let outer = closure(vec![let_("inner", false, inner)]);
    let program = a::Program {
        declarations: vec![main_fn(vec![let_("outer", false, outer), a::Statement::Expr(closure(vec![]))])],
    };
    let out = bir(program);
    let closures = collect_closures_in_program(&out);
    let names: Vec<&str> = closures
        .iter()
        .map(|c| match c {
            b::Expr::Closure { mangled_name, .. } => mangled_name.as_str(),
            _ => "",
        })
        .collect();
    assert_eq!(names, vec!["__closure_1", "__closure_0", "__closure_2"]);
}

#[test]
fn codegen_names_and_types() {
    assert_eq!(trampoline_name("__closure_3"), "__closure_3__trampoline");
    assert_eq!(type_from_ast(&b::TypeKind::Int), Some(MachineType::I64));
    assert_eq!(type_from_ast(&b::TypeKind::String), Some(MachineType::Pointer));
    assert_eq!(type_from_ast(&b::TypeKind::Bool), Some(MachineType::I8));
    assert_eq!(type_from_ast(&b::TypeKind::Void), None);
}

#[test]
fn string_constants_are_nul_terminated() {
    assert_eq!(string_data(Some("hi")), vec![b'h', b'i', 0]);
    assert_eq!(string_data(Some("\\n")), vec![b'\n', 0]);
    assert_eq!(string_data(Some("\\t")), vec![b'\t', 0]);
    assert_eq!(string_data(None), vec![0]);
}

#[test]
fn main_and_public_functions_are_exported() {
    let f = |name: &str, public: bool| b::Function {
        name: name.to_string(),
        params: vec![],
        ret_ty: b::TypeKind::Void,
        body: b::Block { statements: vec![] },
        public,
    };
    assert_eq!(function_linkage(&f("main", false)), Linkage::Export);
    assert_eq!(function_linkage(&f("pkg.main.g", true)), Linkage::Export);
    assert_eq!(function_linkage(&f("pkg.main.g", false)), Linkage::Local);
}

fn named_fn(name: &str, statements: Vec<a::Statement<'static>>) -> a::Declaration<'static> {
    a::Declaration::Function(a::Function {
        span: sp(),
        name: name.to_string(),
        params: vec![],
        ret_ty: a::TypeKind::Void,
        body: block(statements),
        vis: a::Vis::Private,
    })
}

fn capture_flags(statement: &b::Statement<'static>) -> Vec<(String, bool)> {
    match statement {
        b::Statement::Let { expr: b::Expr::Closure { captures, .. }, .. } => {
            captures.iter().map(|(n, _, m)| (n.clone(), *m)).collect()
        }
        _ => panic!("expected a closure"),
    }
}

#[test]
fn let_mut_of_an_earlier_function_is_out_of_scope() {
    let program = a::Program {
        declarations: vec![
            named_fn("first", vec![let_("x", true, a::Expr::IntLiteral(1))]),
            named_fn(
                "second",
                vec![
                    let_("x", false, a::Expr::IntLiteral(2)),
                    let_("f", false, closure(vec![a::Statement::Expr(var("x", a::TypeKind::Int))])),
                ],
            ),
        ],
    };
    let out = bir(program);
    match &out.declarations[1] {
        b::Declaration::Function(f) => {
            assert_eq!(capture_flags(&f.body.statements[1]), vec![("x".to_string(), false)]);
        }
        _ => panic!("expected a function"),
    }
}

#[test]
fn let_mut_inside_a_loop_body_is_out_of_scope_after_it() {
    let program = a::Program {
        declarations: vec![main_fn(vec![
            let_("x", false, a::Expr::IntLiteral(1)),
            a::Statement::ForLoop {
                span: sp(),
                cond: None,
                block: block(vec![let_("x", true, a::Expr::IntLiteral(2)), a::Statement::Break { span: sp() }]),
            },
            let_("f", false, closure(vec![a::Statement::Expr(var("x", a::TypeKind::Int))])),
        ])],
    };
    let out = bir(program);
    let f = lowered_main(&out);
    assert_eq!(capture_flags(&f.body.statements[2]), vec![("x".to_string(), false)]);
}
