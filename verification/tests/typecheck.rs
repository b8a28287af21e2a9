use fowl::parser_ast::{BinaryOp, Block, Declaration, Expr, ExprKind, Function, Ident, Program, Statement, Type, TypeKind, Vis};
use fowl::source_span::Span;
use fowl::typecheck::typecheck;
use fowl::typecheck_ast as t;

fn sp(start: usize, end: usize) -> Span<'static> {
    Span::new(start, end, "main.fo", "0123456789012345678901234567890123456789")
}

fn ident(name: &'static str) -> Ident<'static> {
    Ident { inner: name, span: sp(0, name.len()) }
}

fn int_lit(i: i64) -> Expr<'static> {
    Expr { kind: ExprKind::IntLiteral(i), span: sp(1, 2) }
}

fn var(name: &'static str) -> Expr<'static> {
    Expr { kind: ExprKind::Ident(ident(name)), span: sp(3, 4) }
}

fn function(name: &'static str, ret_ty: TypeKind<'static>, statements: Vec<Statement<'static>>) -> Declaration<'static> {
    Declaration::Function(Function {
        span: sp(0, 10),
        name: ident(name),
        params: vec![],
        ret_ty: Type { span: sp(5, 8), kind: ret_ty },
        body: Block { span: sp(10, 30), statements },
        vis: Vis::Public,
    })
}

#[test]
fn typecheck_infers_let_and_return_types() {
    let program = Program {
        declarations: vec![function(
            "main",
            TypeKind::Int,
            vec![
                Statement::Let { name: ident("x"), ty: None, expr: int_lit(1), mutable: false, span: sp(10, 15) },
                Statement::Return {
                    span: sp(16, 20),
                    expr: Some(Expr {
                        kind: ExprKind::Binary { op: BinaryOp::Mul, left: Box::new(var("x")), right: Box::new(int_lit(2)) },
                        span: sp(17, 20),
                    }),
                },
            ],
        )],
    };
    let (out, errors) = typecheck(program);
    assert!(errors.is_empty());
    match &out.declarations[0] {
        t::Declaration::Function(f) => {
            assert_eq!(f.name.inner, "main");
            assert!(matches!(f.ret_ty, t::TypeKind::Int));
            assert!(matches!(f.vis, t::Vis::Public));
        }
        _ => panic!("expected a function"),
    }
}

#[test]
fn typecheck_keeps_the_left_type_of_a_comparison() {
    let program = Program {
        declarations: vec![function(
            "main",
            TypeKind::Int,
            vec![Statement::Return {
                span: sp(16, 20),
                expr: Some(Expr {
                    kind: ExprKind::Binary { op: BinaryOp::Lt, left: Box::new(int_lit(1)), right: Box::new(int_lit(2)) },
                    span: sp(17, 20),
                }),
            }],
        )],
    };
    let (out, errors) = typecheck(program);
    assert!(errors.is_empty());
    assert_eq!(out.declarations.len(), 1);
}

#[test]
fn typecheck_reports_a_mismatched_return_type() {
    let program = Program {
        declarations: vec![function("main", TypeKind::Bool, vec![Statement::Return { span: sp(16, 20), expr: Some(int_lit(1)) }])],
    };
    let (out, errors) = typecheck(program);
    assert!(out.declarations.is_empty());
    assert_eq!(errors.len(), 1);
    assert_eq!(errors[0].message, "Mismatched return type of function");
}

#[test]
fn typecheck_variables_carry_over_between_functions() {
    let program = Program {
        declarations: vec![
            function("first", TypeKind::Void, vec![Statement::Let { name: ident("x"), ty: None, expr: int_lit(1), mutable: false, span: sp(10, 15) }]),
            function("second", TypeKind::Int, vec![Statement::Return { span: sp(16, 20), expr: Some(var("x")) }]),
        ],
    };
    let (out, errors) = typecheck(program);
    assert!(errors.is_empty());
    assert_eq!(out.declarations.len(), 2);
}
