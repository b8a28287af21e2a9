use fowl::analyzer::analyzer;
use fowl::analyzer_ast;
use fowl::diagnostic::{Diagnostic, Element, LabelKind};
use fowl::parser_ast::{
    BinaryOp, Block, Call, Declaration, Expr, ExprKind, Function, Ident, Param, Program, Statement,
    Type, TypeKind, Use, Vis,
};
use fowl::source_span::Span;

const FILE: &str = "main.fo";
const SRC: &str = "0123456789012345678901234567890123456789";

fn sp(start: usize, end: usize) -> Span<'static> {
    Span::new(start, end, FILE, SRC)
}

fn ident(name: &'static str, at: usize) -> Ident<'static> {
    Ident { inner: name, span: sp(at, at + name.len()) }
}

fn int_lit(i: i64, at: usize) -> Expr<'static> {
    Expr { kind: ExprKind::IntLiteral(i), span: sp(at, at + 1) }
}

fn string(s: &'static str, at: usize) -> Expr<'static> {
    Expr { kind: ExprKind::StringLiteral(Some(s)), span: sp(at, at + 1) }
}

fn var(name: &'static str, at: usize) -> Expr<'static> {
    Expr { kind: ExprKind::Ident(ident(name, at)), span: sp(at, at + name.len()) }
}

fn binary(op: BinaryOp, left: Expr<'static>, right: Expr<'static>, at: usize) -> Expr<'static> {
    Expr { kind: ExprKind::Binary { op, left: Box::new(left), right: Box::new(right) }, span: sp(at, at + 5) }
}

fn call(name: &'static str, args: Vec<Expr<'static>>, at: usize) -> Expr<'static> {
    Expr {
        kind: ExprKind::Call(Call { callee: Box::new(var(name, at)), args }),
        span: sp(at, at + 3),
    }
}

fn let_stmt(name: &'static str, mutable: bool, expr: Expr<'static>, at: usize) -> Statement<'static> {
    Statement::Let { name: ident(name, at), ty: None, expr, mutable, span: sp(at, at + 6) }
}

fn ret(expr: Option<Expr<'static>>, at: usize) -> Statement<'static> {
    Statement::Return { span: sp(at, at + 6), expr }
}

fn ty(kind: TypeKind<'static>, at: usize) -> Type<'static> {
    Type { span: sp(at, at + 3), kind }
}

fn function(
    name: &'static str,
    vis: Vis,
    params: Vec<Param<'static>>,
    ret_ty: TypeKind<'static>,
    statements: Vec<Statement<'static>>,
) -> Declaration<'static> {
    Declaration::Function(Function {
        span: sp(0, 10),
        name: ident(name, 3),
        params,
        ret_ty: ty(ret_ty, 20),
        body: Block { span: sp(25, 40), statements },
        vis,
    })
}

fn labels(d: &Diagnostic) -> Vec<(String, LabelKind)> {
    d.elements()
        .iter()
        .filter_map(|e| match e {
            Element::Label { message, kind, .. } => Some((message.clone(), *kind)),
            _ => None,
        })
        .collect()
}

fn single(main: Vec<Declaration<'static>>) -> Vec<(String, Program<'static>)> {
    vec![("pkg.main".to_string(), Program { declarations: main })]
}

#[test]
fn analyzes_a_function_and_infers_types() {
    let files = single(vec![function(
        "main",
        Vis::Private,
        vec![],
        TypeKind::Int,
        vec![let_stmt("x", false, int_lit(1, 30), 26), ret(Some(binary(BinaryOp::Add, var("x", 33), int_lit(2, 35), 33)), 32)],
    )]);
    let (program, errors) = analyzer(&files, "pkg");
    assert!(errors.is_empty());
    assert_eq!(program.declarations.len(), 1);
    match &program.declarations[0] {
        analyzer_ast::Declaration::Function(f) => {
            assert_eq!(f.name, "main");
            assert!(matches!(f.ret_ty, analyzer_ast::TypeKind::Int));
            assert!(matches!(f.body.ty, analyzer_ast::TypeKind::Int));
            match &f.body.statements[1] {
                analyzer_ast::Statement::Return { ty, expr: Some(analyzer_ast::Expr::Binary { ty: bty, .. }), .. } => {
                    assert!(matches!(ty, analyzer_ast::TypeKind::Int));
                    assert!(matches!(bty, analyzer_ast::TypeKind::Int));
                }
                _ => panic!("expected a return of a binary expression"),
            }
        }
        _ => panic!("expected a function"),
    }
}

#[test]
fn comparison_has_type_bool() {
    let files = single(vec![function(
        "main",
        Vis::Private,
        vec![],
        TypeKind::Bool,
        vec![ret(Some(binary(BinaryOp::Lt, int_lit(1, 30), int_lit(2, 32), 30)), 28)],
    )]);
    let (program, errors) = analyzer(&files, "pkg");
    assert!(errors.is_empty());
    match &program.declarations[0] {
        analyzer_ast::Declaration::Function(f) => assert!(matches!(f.ret_ty, analyzer_ast::TypeKind::Bool)),
        _ => panic!("expected a function"),
    }
}

#[test]
fn adding_a_string_to_an_int_is_refused() {
    let files = single(vec![function(
        "main",
        Vis::Private,
        vec![],
        TypeKind::Int,
        vec![ret(Some(binary(BinaryOp::Add, int_lit(1, 30), string("a", 34), 30)), 28)],
    )]);
    let (program, errors) = analyzer(&files, "pkg");
    assert!(program.declarations.is_empty());
    assert_eq!(errors.len(), 1);
    assert_eq!(errors[0].message, "cannot add an 'int' to a 'string'");
    assert_eq!(errors[0].span, sp(30, 35));
    assert_eq!(
        labels(&errors[0]),
        vec![
            ("This is an 'int'".to_string(), LabelKind::Error),
            ("This is a 'string'".to_string(), LabelKind::Error)
        ]
    );
}

#[test]
fn subtraction_message_names_the_right_operand_first() {
    let files = single(vec![function(
        "main",
        Vis::Private,
        vec![],
        TypeKind::Int,
        vec![ret(Some(binary(BinaryOp::Sub, int_lit(1, 30), string("a", 34), 30)), 28)],
    )]);
    let (_, errors) = analyzer(&files, "pkg");
    assert_eq!(errors[0].message, "cannot subtract a 'string' from an 'int'");
}

#[test]
fn and_needs_a_boolean() {
    let files = single(vec![function(
        "main",
        Vis::Private,
        vec![],
        TypeKind::Int,
        vec![ret(Some(binary(BinaryOp::And, int_lit(1, 30), int_lit(2, 34), 30)), 28)],
    )]);
    let (_, errors) = analyzer(&files, "pkg");
    assert_eq!(errors.len(), 1);
    assert_eq!(errors[0].message, "Only boolean expression allowed on either side of 'and' or 'or'");
}

#[test]
fn assigning_to_an_immutable_variable_is_refused() {
    let files = single(vec![function(
        "main",
        Vis::Private,
        vec![],
        TypeKind::Void,
        vec![
            let_stmt("x", false, int_lit(1, 30), 26),
            Statement::Assign { name: ident("x", 33), expr: int_lit(2, 37), span: sp(33, 38) },
        ],
    )]);
    let (program, errors) = analyzer(&files, "pkg");
    assert!(program.declarations.is_empty());
    assert_eq!(errors[0].message, "Variable is not mutable");
    assert_eq!(
        labels(&errors[0]),
        vec![("Variable defined here. Consider making it mutable".to_string(), LabelKind::Error)]
    );
}

#[test]
fn assigning_to_an_unknown_variable_is_refused() {
    let files = single(vec![function(
        "main",
        Vis::Private,
        vec![],
        TypeKind::Void,
        vec![Statement::Assign { name: ident("y", 33), expr: int_lit(2, 37), span: sp(33, 38) }],
    )]);
    let (_, errors) = analyzer(&files, "pkg");
    assert_eq!(errors[0].message, "A variable with the name 'y' does not exist");
}

#[test]
fn assigning_a_different_type_is_refused() {
    let files = single(vec![function(
        "main",
        Vis::Private,
        vec![],
        TypeKind::Void,
        vec![
            let_stmt("x", true, int_lit(1, 30), 26),
            Statement::Assign { name: ident("x", 33), expr: string("s", 37), span: sp(33, 38) },
        ],
    )]);
    let (_, errors) = analyzer(&files, "pkg");
    assert_eq!(errors[0].message, "Mismatched types");
    assert_eq!(
        labels(&errors[0]),
        vec![("This variable has type 'int', but is being assigned a(n) 'string'".to_string(), LabelKind::Error)]
    );
}

#[test]
fn mismatched_return_type_is_refused() {
    let files = single(vec![function(
        "main",
        Vis::Private,
        vec![],
        TypeKind::String,
        vec![ret(Some(int_lit(1, 30)), 28)],
    )]);
    let (_, errors) = analyzer(&files, "pkg");
    assert_eq!(errors[0].message, "Mismatched return type of function");
    assert_eq!(
        labels(&errors[0]),
        vec![
            ("Return type defined as string".to_string(), LabelKind::Info),
            ("Mismatched types. Expected 'string' found 'int'".to_string(), LabelKind::Error)
        ]
    );
}

#[test]
fn calls_reach_functions_of_the_same_module() {
    let files = single(vec![
        function("helper", Vis::Internal, vec![], TypeKind::Int, vec![ret(Some(int_lit(7, 30)), 28)]),
        function("main", Vis::Private, vec![], TypeKind::Int, vec![ret(Some(call("helper", vec![], 30)), 28)]),
    ]);
    let (program, errors) = analyzer(&files, "pkg");
    assert!(errors.is_empty());
    assert_eq!(program.declarations.len(), 2);
    match &program.declarations[0] {
        analyzer_ast::Declaration::Function(f) => assert_eq!(f.name, "pkg.main.helper"),
        _ => panic!("expected a function"),
    }
    match &program.declarations[1] {
        analyzer_ast::Declaration::Function(f) => match &f.body.statements[0] {
            analyzer_ast::Statement::Return { expr: Some(analyzer_ast::Expr::Call { call, ty }), .. } => {
                assert_eq!(call.callee, "pkg.main.helper");
                assert!(matches!(ty, analyzer_ast::TypeKind::Int));
            }
            _ => panic!("expected a call"),
        },
        _ => panic!("expected a function"),
    }
}

#[test]
fn calling_an_unknown_function_is_refused() {
    let files = single(vec![function(
        "main",
        Vis::Private,
        vec![],
        TypeKind::Int,
        vec![ret(Some(call("nowhere", vec![], 30)), 28)],
    )]);
    let (_, errors) = analyzer(&files, "pkg");
    assert_eq!(errors[0].message, "Couldn't find 'nowhere'");
}

#[test]
fn calling_a_private_function_is_refused() {
    let files = single(vec![
        function("helper", Vis::Private, vec![], TypeKind::Int, vec![ret(Some(int_lit(7, 30)), 28)]),
        function("main", Vis::Private, vec![], TypeKind::Int, vec![ret(Some(call("helper", vec![], 30)), 28)]),
    ]);
    let (_, errors) = analyzer(&files, "pkg");
    assert_eq!(errors.len(), 1);
    assert_eq!(errors[0].message, "Private function");
    assert!(errors[0]
        .elements()
        .iter()
        .any(|e| matches!(e, Element::Help(h) if h == "make the function `internal` or `public` to use it")));
}

#[test]
fn use_brings_in_a_function_of_another_module() {
    let util = Program {
        declarations: vec![function("helper", Vis::Public, vec![], TypeKind::Int, vec![ret(Some(int_lit(7, 30)), 28)])],
    };
    let main = Program {
        declarations: vec![
            Declaration::Use(Use { import: vec![ident("pkg", 0), ident("util", 4), ident("helper", 9)], span: sp(0, 15) }),
            function("main", Vis::Private, vec![], TypeKind::Int, vec![ret(Some(call("helper", vec![], 30)), 28)]),
        ],
    };
    let files = vec![("pkg.main".to_string(), main), ("pkg.util".to_string(), util)];
    let (program, errors) = analyzer(&files, "pkg");
    assert!(errors.is_empty());
    assert_eq!(program.declarations.len(), 2);
    match &program.declarations[1] {
        analyzer_ast::Declaration::Function(f) => match &f.body.statements[0] {
            analyzer_ast::Statement::Return { expr: Some(analyzer_ast::Expr::Call { call, .. }), .. } => {
                assert_eq!(call.callee, "pkg.util.helper");
            }
            _ => panic!("expected a call"),
        },
        _ => panic!("expected a function"),
    }
}

#[test]
fn use_of_an_unknown_module_is_refused() {
    let files = single(vec![Declaration::Use(Use {
        import: vec![ident("nope", 0), ident("thing", 5)],
        span: sp(0, 10),
    })]);
    let (_, errors) = analyzer(&files, "pkg");
    assert_eq!(errors[0].message, "Unknown module nope.thing");
}

#[test]
fn parameters_are_in_scope() {
    let files = single(vec![function(
        "main",
        Vis::Private,
        vec![Param { span: sp(5, 8), name: ident("n", 5), ty: ty(TypeKind::Int, 7), default: None }],
        TypeKind::Int,
        vec![ret(Some(var("n", 30)), 28)],
    )]);
    let (program, errors) = analyzer(&files, "pkg");
    assert!(errors.is_empty());
    match &program.declarations[0] {
        analyzer_ast::Declaration::Function(f) => {
            assert_eq!(f.params.len(), 1);
            assert!(matches!(f.ret_ty, analyzer_ast::TypeKind::Int));
        }
        _ => panic!("expected a function"),
    }
}

#[test]
fn print_of_a_standard_module_is_not_analyzed() {
    let io = Program {
        declarations: vec![function("print", Vis::Private, vec![], TypeKind::Void, vec![])],
    };
    let main = Program {
        declarations: vec![Declaration::Use(Use {
            import: vec![ident("std", 0), ident("io", 4), ident("print", 7)],
            span: sp(0, 12),
        })],
    };
    let files = vec![("pkg.main".to_string(), main), ("std.io".to_string(), io)];
    let (program, errors) = analyzer(&files, "pkg");
    assert!(errors.is_empty());
    match &program.declarations[0] {
        analyzer_ast::Declaration::Function(f) => {
            assert_eq!(f.name, "std.io.print");
            assert!(matches!(f.vis, analyzer_ast::Vis::Public));
        }
        _ => panic!("expected a function"),
    }
}
