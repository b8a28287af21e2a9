//! The single-module type checker: infers the type of every expression of a
//! module and checks that operands and return types line up.

use crate::analyzer::Outcome;
use crate::diagnostic::{error_view, Diagnostic, DiagnosticView};
use crate::parser_ast;
use crate::typecheck_ast as typecheck_ast;
use crate::typecheck_ast::{expr_ty, type_text, TypeKind};
use crate::utils::{a_or_an, article, concat, concat3, str_eq};
use vstd::prelude::*;
use vstd::string::*;

verus! {

/// The types of the variables in scope.
pub type TVars<'source> = Map<Seq<char>, TypeKind<'source>>;

/// The checked type for a written one.
pub open spec fn tc_type<'source>(ty: parser_ast::TypeKind<'source>) -> TypeKind<'source> {
    match ty {
        parser_ast::TypeKind::Ident(ident) => TypeKind::Ident(
            typecheck_ast::Ident { inner: ident.inner, span: ident.span },
        ),
        parser_ast::TypeKind::Int => TypeKind::Int,
        parser_ast::TypeKind::Float => TypeKind::Float,
        parser_ast::TypeKind::String => TypeKind::String,
        parser_ast::TypeKind::Bool => TypeKind::Bool,
        parser_ast::TypeKind::Void => TypeKind::Void,
    }
}

/// Two types line up: the same builtin type, or named types of the same name.
pub open spec fn tc_types_align<'source>(a: TypeKind<'source>, b: TypeKind<'source>) -> bool {
    match (a, b) {
        (TypeKind::Ident(x), TypeKind::Ident(y)) => x.inner@ == y.inner@,
        (TypeKind::Int, TypeKind::Int) => true,
        (TypeKind::Float, TypeKind::Float) => true,
        (TypeKind::String, TypeKind::String) => true,
        (TypeKind::Bool, TypeKind::Bool) => true,
        (TypeKind::Void, TypeKind::Void) => true,
        _ => false,
    }
}

/// The article and the type, as messages quote a type.
pub open spec fn tc_quoted<'source>(t: TypeKind<'source>) -> Seq<char> {
    article(type_text(t)) + " '"@ + type_text(t) + "'"@
}

/// The message for operands of a binary operator whose types do not line up.
pub open spec fn tc_mismatch_message<'source>(op: parser_ast::BinaryOp, l: TypeKind<'source>, r: TypeKind<'source>) -> Seq<char> {
    match op {
        parser_ast::BinaryOp::Add => "cannot add "@ + (tc_quoted(l) + " to "@ + tc_quoted(r)),
        parser_ast::BinaryOp::Sub => "cannot subtract "@ + (tc_quoted(r) + " from "@ + tc_quoted(l)),
        parser_ast::BinaryOp::Mul => "cannot multiply "@ + (tc_quoted(l) + " with "@ + tc_quoted(r)),
        parser_ast::BinaryOp::Div => "cannot divide "@ + (tc_quoted(l) + " with "@ + tc_quoted(r)),
        parser_ast::BinaryOp::Mod => "cannot take the remainder of "@ + (tc_quoted(l) + " with "@
            + tc_quoted(r)),
        parser_ast::BinaryOp::Exp => "cannot take exponentiate "@ + (tc_quoted(l) + " with "@
            + tc_quoted(r)),
        _ => "cannot compare "@ + (tc_quoted(l) + " with "@ + tc_quoted(r)),
    }
}

/// The check of a binary operator: `and` and `or` are refused when neither
/// side is a boolean, every operator when the types do not line up; the
/// expression has the type of its left operand.
pub open spec fn tc_check_binary<'source>(
    op: parser_ast::BinaryOp,
    lt: TypeKind<'source>,
    rt: TypeKind<'source>,
    span: crate::source_span::Span<'source>,
    lspan: crate::source_span::Span<'source>,
    rspan: crate::source_span::Span<'source>,
) -> Outcome<'source, TypeKind<'source>> {
    let logical = op == parser_ast::BinaryOp::And || op == parser_ast::BinaryOp::Or;
    if logical && !(lt is Bool) && !(rt is Bool) {
        Outcome::Failed(
            error_view(span, "Only boolean expression allowed on either side of 'and' or 'or'"@),
        )
    } else if !tc_types_align(lt, rt) {
        if logical || type_text(lt).len() == 0 || type_text(rt).len() == 0 {
            Outcome::Stuck
        } else {
            Outcome::Failed(
                error_view(span, tc_mismatch_message(op, lt, rt)).with_error_label(
                    lspan,
                    "This is "@ + tc_quoted(lt),
                ).with_error_label(rspan, "This is "@ + tc_quoted(rt)),
            )
        }
    } else {
        Outcome::Done(lt)
    }
}

/// The type of an expression; expressions do not change the variables in scope.
pub open spec fn tc_expr<'source>(e: parser_ast::Expr<'source>, vars: TVars<'source>) -> Outcome<'source, TypeKind<'source>>
    decreases e,
{
    match e.kind {
        parser_ast::ExprKind::IntLiteral(_) => Outcome::Done(TypeKind::Int),
        parser_ast::ExprKind::FloatLiteral(_) => Outcome::Done(TypeKind::Float),
        parser_ast::ExprKind::Ident(i) => if vars.contains_key(i.inner@) {
            Outcome::Done(vars[i.inner@])
        } else {
            Outcome::Stuck
        },
        parser_ast::ExprKind::Binary { op, left, right } => match tc_expr(*left, vars) {
            Outcome::Done(lt) => match tc_expr(*right, vars) {
                Outcome::Done(rt) => tc_check_binary(op, lt, rt, e.span, left.span, right.span),
                Outcome::Failed(d) => Outcome::Failed(d),
                Outcome::Stuck => Outcome::Stuck,
            },
            Outcome::Failed(d) => Outcome::Failed(d),
            Outcome::Stuck => Outcome::Stuck,
        },
        _ => Outcome::Stuck,
    }
}

/// The type of an expression, where it has one.
pub open spec fn tc_type_of<'source>(e: parser_ast::Expr<'source>, vars: TVars<'source>) -> TypeKind<'source> {
    match tc_expr(e, vars) {
        Outcome::Done(t) => t,
        _ => TypeKind::Void,
    }
}

/// `out` is the checked expression for `e`.
pub open spec fn tc_lowers_expr<'source>(out: typecheck_ast::Expr<'source>, e: parser_ast::Expr<'source>, vars: TVars<'source>) -> bool
    decreases e,
{
    match e.kind {
        parser_ast::ExprKind::IntLiteral(i) => out == typecheck_ast::Expr::IntLiteral(i),
        parser_ast::ExprKind::FloatLiteral(f) => out == typecheck_ast::Expr::FloatLiteral(f),
        parser_ast::ExprKind::Ident(i) => out == typecheck_ast::Expr::Ident {
            ident: typecheck_ast::Ident { inner: i.inner, span: i.span },
            ty: vars[i.inner@],
        },
        parser_ast::ExprKind::Binary { op, left, right } => out matches typecheck_ast::Expr::Binary {
            op: o,
            left: l,
            right: r,
            ty,
        } && o == typecheck_ast::spec_binary_from(op) && tc_lowers_expr(*l, *left, vars) && tc_lowers_expr(
            *r,
            *right,
            vars,
        ) && ty == tc_type_of(*left, vars),
        _ => false,
    }
}

/// The outcome of checking a statement (the type it gives its block when it
/// comes last) and the variables in scope after it, also after a failure.
pub open spec fn tc_stmt<'source>(s: parser_ast::Statement<'source>, vars: TVars<'source>) -> (Outcome<'source, TypeKind<'source>>, TVars<'source>) {
    match s {
        parser_ast::Statement::Let { name, expr, .. } => match tc_expr(expr, vars) {
            Outcome::Done(t) => (Outcome::Done(TypeKind::Void), vars.insert(name.inner@, t)),
            Outcome::Failed(d) => (Outcome::Failed(d), vars),
            Outcome::Stuck => (Outcome::Stuck, vars),
        },
        parser_ast::Statement::Return { expr, .. } => match expr {
            Some(e) => (tc_expr(e, vars), vars),
            None => (Outcome::Done(TypeKind::Void), vars),
        },
        _ => (Outcome::Stuck, vars),
    }
}

/// Checking the first `n` statements in order; it stops at the first failure.
pub open spec fn tc_stmts<'source>(ss: Seq<parser_ast::Statement<'source>>, n: int, vars: TVars<'source>) -> (Outcome<'source, TypeKind<'source>>, TVars<'source>)
    decreases n,
{
    if n <= 0 || n > ss.len() {
        (Outcome::Done(TypeKind::Void), vars)
    } else {
        let (o, v) = tc_stmts(ss, n - 1, vars);
        match o {
            Outcome::Done(_) => tc_stmt(ss[n - 1], v),
            _ => (o, v),
        }
    }
}

/// The variables in scope after the first `n` statements.
pub open spec fn tc_stmts_vars<'source>(ss: Seq<parser_ast::Statement<'source>>, n: int, vars: TVars<'source>) -> TVars<'source> {
    tc_stmts(ss, n, vars).1
}

/// `out` is the checked statement for `s`.
pub open spec fn tc_lowers_stmt<'source>(out: typecheck_ast::Statement<'source>, s: parser_ast::Statement<'source>, vars: TVars<'source>) -> bool {
    match s {
        parser_ast::Statement::Let { name, expr, mutable, span, .. } => out matches typecheck_ast::Statement::Let {
            name: n2,
            ty,
            expr: e2,
            mutable: m2,
            span: s2,
        } && n2 == (typecheck_ast::Ident { inner: name.inner, span: name.span }) && ty == tc_type_of(
            expr,
            vars,
        ) && tc_lowers_expr(e2, expr, vars) && m2 == mutable && s2 == span,
        parser_ast::Statement::Return { span, expr } => out matches typecheck_ast::Statement::Return {
            span: s2,
            expr: e2,
            ty,
        } && s2 == span && (match expr {
            Some(e) => e2 matches Some(x) && tc_lowers_expr(x, e, vars) && ty == tc_type_of(e, vars),
            None => e2 is None && ty is Void,
        }),
        _ => false,
    }
}

pub open spec fn tc_lowers_stmts<'source>(os: Seq<typecheck_ast::Statement<'source>>, ss: Seq<parser_ast::Statement<'source>>, n: int, vars: TVars<'source>) -> bool
    decreases n,
{
    if n <= 0 || n > ss.len() {
        n == 0
    } else {
        tc_lowers_stmts(os, ss, n - 1, vars) && tc_lowers_stmt(os[n - 1], ss[n - 1], tc_stmts_vars(ss, n - 1, vars))
    }
}

/// The diagnostic for a function whose body does not have its declared return type.
pub open spec fn tc_return_mismatch<'source>(f: parser_ast::Function<'source>, found: TypeKind<'source>) -> DiagnosticView<'source> {
    let declared = type_text(tc_type(f.ret_ty.kind));
    error_view(f.ret_ty.span, "Mismatched return type of function"@).with_info_label(
        f.ret_ty.span,
        "Return type defined as "@ + declared,
    ).with_error_label(
        parser_ast::statement_span(f.body.statements@.last()),
        "Mismatched types. Expected '"@ + declared + "' found '"@ + type_text(found) + "'"@,
    )
}

/// Checking a function: its body, then its return type against the type of the body.
pub open spec fn tc_function<'source>(f: parser_ast::Function<'source>, vars: TVars<'source>) -> (Outcome<'source, TypeKind<'source>>, TVars<'source>) {
    let ss = f.body.statements@;
    let (o, v) = tc_stmts(ss, ss.len() as int, vars);
    match o {
        Outcome::Done(bt) => if !tc_types_align(tc_type(f.ret_ty.kind), bt) {
            if ss.len() == 0 {
                (Outcome::Stuck, v)
            } else {
                (Outcome::Failed(tc_return_mismatch(f, bt)), v)
            }
        } else {
            (Outcome::Done(bt), v)
        },
        _ => (o, v),
    }
}

/// `out` is the checked function for `f`, checked with `vars` in scope.
pub open spec fn tc_lowers_function<'source>(out: typecheck_ast::Function<'source>, f: parser_ast::Function<'source>, vars: TVars<'source>) -> bool {
    let ss = f.body.statements@;
    &&& out.span == f.span
    &&& out.name == (typecheck_ast::Ident { inner: f.name.inner, span: f.name.span })
    &&& out.params@.len() == f.params@.len()
    &&& forall|i: int|
        0 <= i < f.params@.len() ==> {
            let o = #[trigger] out.params@[i];
            let p = f.params@[i];
            &&& o.span == p.span
            &&& o.name == (typecheck_ast::Ident { inner: p.name.inner, span: p.name.span })
            &&& o.ty == (typecheck_ast::Type { span: p.ty.span, kind: tc_type(p.ty.kind) })
            &&& o.default is None
        }
    &&& tc_function(f, vars).0 matches Outcome::Done(bt) && out.ret_ty == bt && out.body.ty == bt
    &&& out.body.span == f.body.span
    &&& out.body.statements@.len() == ss.len()
    &&& tc_lowers_stmts(out.body.statements@, ss, ss.len() as int, vars)
    &&& out.vis == typecheck_ast::spec_vis_from(f.vis)
}

/// The state of checking a module: the diagnostics, the functions that
/// passed with the variables in scope when each was checked, and the
/// variables in scope now.
pub ghost struct TcState<'source> {
    pub errors: Seq<DiagnosticView<'source>>,
    pub program: Seq<(parser_ast::Function<'source>, TVars<'source>)>,
    pub vars: TVars<'source>,
}

/// Checking the first `n` declarations of a module; the variables in scope
/// carry over from one function to the next.
pub open spec fn tc_decls<'source>(ds: Seq<parser_ast::Declaration<'source>>, n: int) -> Option<TcState<'source>>
    decreases n,
{
    if n <= 0 || n > ds.len() {
        Some(TcState { errors: Seq::empty(), program: Seq::empty(), vars: Map::empty() })
    } else {
        match tc_decls(ds, n - 1) {
            Some(st) => match ds[n - 1] {
                parser_ast::Declaration::Function(f) => {
                    let (o, v) = tc_function(f, st.vars);
                    match o {
                        Outcome::Done(_) => Some(TcState { program: st.program.push((f, st.vars)), vars: v, ..st }),
                        Outcome::Failed(d) => Some(TcState { errors: st.errors.push(d), vars: v, ..st }),
                        Outcome::Stuck => None,
                    }
                },
                _ => None,
            },
            None => None,
        }
    }
}

// ---------------------------------------------------------------------------
// Executable checker
// ---------------------------------------------------------------------------

pub open spec fn tvars_view<'source>(v: Seq<(&'source str, TypeKind<'source>)>) -> TVars<'source>
    decreases v.len(),
{
    if v.len() == 0 {
        Map::empty()
    } else {
        tvars_view(v.drop_last()).insert(v.last().0@, v.last().1)
    }
}

fn lookup<'source>(vars: &Vec<(&'source str, TypeKind<'source>)>, name: &str) -> (r: Option<TypeKind<'source>>)
    ensures
        tvars_view(vars@).contains_key(name@) ==> r == Some(tvars_view(vars@)[name@]),
        !tvars_view(vars@).contains_key(name@) ==> r is None,
{
    let mut i = vars.len();
    assert(vars@.subrange(0, i as int) =~= vars@);
    while i > 0
        invariant
            0 <= i <= vars@.len(),
            tvars_view(vars@).contains_key(name@) <==> tvars_view(vars@.subrange(0, i as int)).contains_key(name@),
            tvars_view(vars@).contains_key(name@) ==> tvars_view(vars@)[name@] == tvars_view(
                vars@.subrange(0, i as int),
            )[name@],
        decreases i,
    {
        let ghost prefix = vars@.subrange(0, i as int);
        proof {
            assert(prefix.drop_last() =~= vars@.subrange(0, i - 1));
        }
        if str_eq(vars[i - 1].0, name) {
            return Some(vars[i - 1].1);
        }
        i = i - 1;
    }
    None
}

fn visit_type<'source>(ty: &parser_ast::Type<'source>) -> (t: typecheck_ast::Type<'source>)
    ensures
        t.span == ty.span,
        t.kind == tc_type(ty.kind),
{
    let kind = match &ty.kind {
        parser_ast::TypeKind::Ident(ident) => TypeKind::Ident(typecheck_ast::Ident::from_parser(*ident)),
        parser_ast::TypeKind::Int => TypeKind::Int,
        parser_ast::TypeKind::Float => TypeKind::Float,
        parser_ast::TypeKind::String => TypeKind::String,
        parser_ast::TypeKind::Bool => TypeKind::Bool,
        parser_ast::TypeKind::Void => TypeKind::Void,
    };
    typecheck_ast::Type { span: ty.span, kind }
}

fn validate_types_align<'source>(ty1: &TypeKind<'source>, ty2: &TypeKind<'source>) -> (r: bool)
    ensures
        r == tc_types_align(*ty1, *ty2),
{
    match (ty1, ty2) {
        (TypeKind::Int, TypeKind::Int) | (TypeKind::Float, TypeKind::Float) | (
            TypeKind::String,
            TypeKind::String,
        ) | (TypeKind::Bool, TypeKind::Bool) | (TypeKind::Void, TypeKind::Void) => true,
        (TypeKind::Ident(ident1), TypeKind::Ident(ident2)) => str_eq(ident1.inner, ident2.inner),
        _ => false,
    }
}

fn quote_type<'source>(t: &TypeKind<'source>) -> (r: String)
    requires
        type_text(*t).len() > 0,
    ensures
        r@ == tc_quoted(*t),
{
    let text = t.to_string();
    let a = a_or_an(text.as_str());
    concat(concat3(a.as_str(), " '", text.as_str()).as_str(), "'")
}

fn mismatch_text<'source>(op: parser_ast::BinaryOp, l: &TypeKind<'source>, r: &TypeKind<'source>) -> (m: String)
    requires
        type_text(*l).len() > 0,
        type_text(*r).len() > 0,
    ensures
        m@ == tc_mismatch_message(op, *l, *r),
{
    let ql = quote_type(l);
    let qr = quote_type(r);
    match op {
        parser_ast::BinaryOp::Add => concat("cannot add ", concat3(ql.as_str(), " to ", qr.as_str()).as_str()),
        parser_ast::BinaryOp::Sub => concat(
            "cannot subtract ",
            concat3(qr.as_str(), " from ", ql.as_str()).as_str(),
        ),
        parser_ast::BinaryOp::Mul => concat(
            "cannot multiply ",
            concat3(ql.as_str(), " with ", qr.as_str()).as_str(),
        ),
        parser_ast::BinaryOp::Div => concat(
            "cannot divide ",
            concat3(ql.as_str(), " with ", qr.as_str()).as_str(),
        ),
        parser_ast::BinaryOp::Mod => concat(
            "cannot take the remainder of ",
            concat3(ql.as_str(), " with ", qr.as_str()).as_str(),
        ),
        parser_ast::BinaryOp::Exp => concat(
            "cannot take exponentiate ",
            concat3(ql.as_str(), " with ", qr.as_str()).as_str(),
        ),
        _ => concat("cannot compare ", concat3(ql.as_str(), " with ", qr.as_str()).as_str()),
    }
}

proof fn lemma_tc_stmts_prefix<'source>(ss: Seq<parser_ast::Statement<'source>>, i: int, n: int, vars: TVars<'source>)
    requires
        0 <= i < n <= ss.len(),
        tc_stmts(ss, i, vars).0 is Done,
    ensures
        !(tc_stmts(ss, i + 1, vars).0 is Done) ==> tc_stmts(ss, n, vars) == tc_stmts(ss, i + 1, vars),
    decreases n,
{
    if n > i + 1 {
        lemma_tc_stmts_prefix(ss, i, n - 1, vars);
    }
}

proof fn lemma_tc_lowers_stmts_frame<'source>(
    os1: Seq<typecheck_ast::Statement<'source>>,
    os2: Seq<typecheck_ast::Statement<'source>>,
    ss: Seq<parser_ast::Statement<'source>>,
    n: int,
    vars: TVars<'source>,
)
    requires
        0 <= n <= os1.len(),
        n <= os2.len(),
        forall|j: int| 0 <= j < n ==> os1[j] == os2[j],
    ensures
        tc_lowers_stmts(os1, ss, n, vars) == tc_lowers_stmts(os2, ss, n, vars),
    decreases n,
{
    if n > 0 {
        lemma_tc_lowers_stmts_frame(os1, os2, ss, n - 1, vars);
    }
}

proof fn lemma_tc_decls_prefix<'source>(ds: Seq<parser_ast::Declaration<'source>>, i: int, n: int)
    requires
        0 <= i <= n <= ds.len(),
        tc_decls(ds, n) is Some,
    ensures
        tc_decls(ds, i) is Some,
    decreases n,
{
    if n > i {
        lemma_tc_decls_prefix(ds, i, n - 1);
    }
}

/// The type a checked statement gives its block when it comes last.
pub open spec fn tc_stmt_type<'source>(s: typecheck_ast::Statement<'source>) -> TypeKind<'source> {
    match s {
        typecheck_ast::Statement::Return { ty, .. } => ty,
        _ => TypeKind::Void,
    }
}

struct Typechecker<'source> {
    errors: Vec<Diagnostic<'source>>,
    variables: Vec<(&'source str, TypeKind<'source>)>,
}

impl<'source> Typechecker<'source> {
    spec fn vars(&self) -> TVars<'source> {
        tvars_view(self.variables@)
    }

    fn visit_expr(&mut self, expr: &parser_ast::Expr<'source>) -> (r: Result<typecheck_ast::Expr<'source>, Diagnostic<'source>>)
        requires
            !(tc_expr(*expr, old(self).vars()) is Stuck),
        ensures
            final(self).errors@ == old(self).errors@,
            final(self).variables@ == old(self).variables@,
            match tc_expr(*expr, old(self).vars()) {
                Outcome::Done(t) => r matches Ok(out) && !(out is StructInstance) && expr_ty(out) == t
                    && tc_lowers_expr(out, *expr, old(self).vars()),
                Outcome::Failed(d) => r matches Err(e) && e@ == d,
                Outcome::Stuck => true,
            },
        decreases expr,
    {
        match &expr.kind {
            parser_ast::ExprKind::IntLiteral(i) => Ok(typecheck_ast::Expr::IntLiteral(*i)),
            parser_ast::ExprKind::FloatLiteral(f) => Ok(typecheck_ast::Expr::FloatLiteral(*f)),
            parser_ast::ExprKind::Ident(i) => {
                let ident = typecheck_ast::Ident::from_parser(*i);
                match lookup(&self.variables, ident.inner) {
                    Some(ty) => Ok(typecheck_ast::Expr::Ident { ident, ty }),
                    None => vstd::pervasive::unreached(),
                }
            },
            parser_ast::ExprKind::Binary { op, left, right } => {
                let left_expr = match self.visit_expr(left) {
                    Ok(e) => e,
                    Err(e) => return Err(e),
                };
                let right_expr = match self.visit_expr(right) {
                    Ok(e) => e,
                    Err(e) => return Err(e),
                };
                let left_ty = *left_expr.ty();
                let right_ty = *right_expr.ty();
                let logical = matches!(op, parser_ast::BinaryOp::And | parser_ast::BinaryOp::Or);
                if logical && !left_ty.is_bool() && !right_ty.is_bool() {
                    return Err(
                        Diagnostic::error(
                            expr.span,
                            "Only boolean expression allowed on either side of 'and' or 'or'",
                        ),
                    );
                }
                if !validate_types_align(&left_ty, &right_ty) {
                    if logical {
                        vstd::pervasive::unreached()
                    } else {
                        let message = mismatch_text(*op, &left_ty, &right_ty);
                        let left_label = concat("This is ", quote_type(&left_ty).as_str());
                        let right_label = concat("This is ", quote_type(&right_ty).as_str());
                        Err(
                            Diagnostic::error(expr.span, message.as_str()).with_error_label(
                                left.span,
                                left_label.as_str(),
                            ).with_error_label(right.span, right_label.as_str()),
                        )
                    }
                } else {
                    Ok(
                        typecheck_ast::Expr::Binary {
                            op: typecheck_ast::BinaryOp::from_parser(*op),
                            ty: left_ty,
                            left: Box::new(left_expr),
                            right: Box::new(right_expr),
                        },
                    )
                }
            },
            _ => vstd::pervasive::unreached(),
        }
    }

    fn visit_statement(&mut self, statement: &parser_ast::Statement<'source>) -> (r: Result<
        typecheck_ast::Statement<'source>,
        Diagnostic<'source>,
    >)
        requires
            !(tc_stmt(*statement, old(self).vars()).0 is Stuck),
        ensures
            final(self).errors@ == old(self).errors@,
            final(self).vars() == tc_stmt(*statement, old(self).vars()).1,
            match tc_stmt(*statement, old(self).vars()).0 {
                Outcome::Done(t) => r matches Ok(out) && tc_stmt_type(out) == t && tc_lowers_stmt(
                    out,
                    *statement,
                    old(self).vars(),
                ),
                Outcome::Failed(d) => r matches Err(e) && e@ == d,
                Outcome::Stuck => true,
            },
    {
        match statement {
            parser_ast::Statement::Let { name, ty: _, expr, mutable, span } => {
                let e = match self.visit_expr(expr) {
                    Ok(e) => e,
                    Err(e) => return Err(e),
                };
                let name = typecheck_ast::Ident::from_parser(*name);
                let ty = *e.ty();
                let ghost before = self.variables@;
                self.variables.push((name.inner, ty));
                proof {
                    assert(self.variables@.drop_last() =~= before);
                }
                Ok(typecheck_ast::Statement::Let { name, ty, expr: e, mutable: *mutable, span: *span })
            },
            parser_ast::Statement::Return { span, expr } => match expr {
                None => Ok(typecheck_ast::Statement::Return { span: *span, expr: None, ty: TypeKind::Void }),
                Some(expr) => {
                    let e = match self.visit_expr(expr) {
                        Ok(e) => e,
                        Err(e) => return Err(e),
                    };
                    Ok(typecheck_ast::Statement::Return { span: *span, ty: *e.ty(), expr: Some(e) })
                },
            },
            _ => vstd::pervasive::unreached(),
        }
    }

    #[verifier::loop_isolation(false)]
    fn visit_block(&mut self, block: &parser_ast::Block<'source>) -> (r: Result<typecheck_ast::Block<'source>, Diagnostic<'source>>)
        requires
            !(tc_stmts(block.statements@, block.statements@.len() as int, old(self).vars()).0 is Stuck),
        ensures
            final(self).errors@ == old(self).errors@,
            final(self).vars() == tc_stmts(block.statements@, block.statements@.len() as int, old(self).vars()).1,
            match tc_stmts(block.statements@, block.statements@.len() as int, old(self).vars()).0 {
                Outcome::Done(t) => r matches Ok(out) && out.ty == t && out.span == block.span
                    && out.statements@.len() == block.statements@.len() && tc_lowers_stmts(
                    out.statements@,
                    block.statements@,
                    block.statements@.len() as int,
                    old(self).vars(),
                ),
                Outcome::Failed(d) => r matches Err(e) && e@ == d,
                Outcome::Stuck => true,
            },
    {
        let ghost vars0 = self.vars();
        let ghost ss = block.statements@;
        let mut statements: Vec<typecheck_ast::Statement<'source>> = Vec::new();
        let mut i: usize = 0;
        while i < block.statements.len()
            invariant
                0 <= i <= ss.len(),
                ss == block.statements@,
                self.errors@ == old(self).errors@,
                tc_stmts(ss, i as int, vars0).0 is Done,
                tc_stmts(ss, i as int, vars0).1 == self.vars(),
                !(tc_stmts(ss, ss.len() as int, vars0).0 is Stuck),
                statements@.len() == i,
                tc_lowers_stmts(statements@, ss, i as int, vars0),
                i > 0 ==> (tc_stmts(ss, i as int, vars0).0 matches Outcome::Done(t) && t == tc_stmt_type(
                    statements@.last(),
                )),
            decreases ss.len() - i,
        {
            proof {
                lemma_tc_stmts_prefix(ss, i as int, ss.len() as int, vars0);
                assert(tc_stmts(ss, i + 1, vars0) == tc_stmt(ss[i as int], self.vars()));
            }
            let s = match self.visit_statement(&block.statements[i]) {
                Ok(s) => s,
                Err(e) => return Err(e),
            };
            proof {
                lemma_tc_lowers_stmts_frame(statements@, statements@.push(s), ss, i as int, vars0);
            }
            statements.push(s);
            i = i + 1;
        }
        let n = statements.len();
        let ty = if n == 0 {
            TypeKind::Void
        } else {
            match &statements[n - 1] {
                typecheck_ast::Statement::Return { ty, .. } => *ty,
                _ => TypeKind::Void,
            }
        };
        Ok(typecheck_ast::Block { span: block.span, statements, ty })
    }

    fn visit_function(&mut self, function: &parser_ast::Function<'source>) -> (r: Result<
        typecheck_ast::Function<'source>,
        Diagnostic<'source>,
    >)
        requires
            !(tc_function(*function, old(self).vars()).0 is Stuck),
        ensures
            final(self).errors@ == old(self).errors@,
            final(self).vars() == tc_function(*function, old(self).vars()).1,
            match tc_function(*function, old(self).vars()).0 {
                Outcome::Done(_) => r matches Ok(f) && tc_lowers_function(f, *function, old(self).vars()),
                Outcome::Failed(d) => r matches Err(e) && e@ == d,
                Outcome::Stuck => true,
            },
    {
        let ghost vars0 = self.vars();
        let ghost ps = function.params@;
        let mut params: Vec<typecheck_ast::Param<'source>> = Vec::new();
        let mut i: usize = 0;
        while i < function.params.len()
            invariant
                0 <= i <= ps.len(),
                ps == function.params@,
                params@.len() == i,
                forall|j: int|
                    0 <= j < i ==> {
                        let o = #[trigger] params@[j];
                        let p = ps[j];
                        &&& o.span == p.span
                        &&& o.name == (typecheck_ast::Ident { inner: p.name.inner, span: p.name.span })
                        &&& o.ty == (typecheck_ast::Type { span: p.ty.span, kind: tc_type(p.ty.kind) })
                        &&& o.default is None
                    },
            decreases ps.len() - i,
        {
            let param = &function.params[i];
            params.push(
                typecheck_ast::Param {
                    span: param.span,
                    name: typecheck_ast::Ident::from_parser(param.name),
                    ty: visit_type(&param.ty),
                    default: None,
                },
            );
            i = i + 1;
        }
        let body = match self.visit_block(&function.body) {
            Ok(b) => b,
            Err(e) => return Err(e),
        };
        let ret_ty = body.ty;
        let defined_ret_ty = visit_type(&function.ret_ty);
        if !validate_types_align(&defined_ret_ty.kind, &ret_ty) {
            let n = function.body.statements.len();
            if n == 0 {
                vstd::pervasive::unreached()
            } else {
                let span = *function.body.statements[n - 1].span();
                let declared = defined_ret_ty.kind.to_string();
                let info = concat("Return type defined as ", declared.as_str());
                let head = concat3("Mismatched types. Expected '", declared.as_str(), "' found '");
                let label = concat3(head.as_str(), ret_ty.to_string().as_str(), "'");
                return Err(
                    Diagnostic::error(
                        function.ret_ty.span,
                        "Mismatched return type of function",
                    ).with_info_label(function.ret_ty.span, info.as_str()).with_error_label(
                        span,
                        label.as_str(),
                    ),
                );
            }
        }
        Ok(
            typecheck_ast::Function {
                span: function.span,
                name: typecheck_ast::Ident::from_parser(function.name),
                params,
                ret_ty,
                body,
                vis: typecheck_ast::Vis::from_parser(function.vis),
            },
        )
    }
}

/// Type-checks the declarations of one module, in order. The variables in
/// scope carry over from one function to the next. Returns the functions
/// that passed and the diagnostics of those that did not.
pub fn typecheck<'source>(program: parser_ast::Program<'source>) -> (r: (
    typecheck_ast::Program<'source>,
    Vec<Diagnostic<'source>>,
))
    requires
        tc_decls(program.declarations@, program.declarations@.len() as int) is Some,
    ensures
        tc_decls(program.declarations@, program.declarations@.len() as int) matches Some(st)
            && r.1@.map_values(|d: Diagnostic<'source>| d@) == st.errors && r.0.declarations@.len()
            == st.program.len() && forall|i: int|
            0 <= i < st.program.len() ==> (#[trigger] r.0.declarations@[i] matches typecheck_ast::Declaration::Function(
                g,
            ) && tc_lowers_function(g, st.program[i].0, st.program[i].1)),
{
    let mut typechecker = Typechecker { errors: Vec::new(), variables: Vec::new() };
    let ghost ds = program.declarations@;
    let mut declarations: Vec<typecheck_ast::Declaration<'source>> = Vec::new();
    let ghost mut checked: Seq<(parser_ast::Function<'source>, TVars<'source>)> = Seq::empty();
    let mut i: usize = 0;
    proof {
        assert(typechecker.errors@.map_values(|d: Diagnostic<'source>| d@) =~= Seq::<DiagnosticView<'source>>::empty());
        assert(typechecker.vars() =~= Map::<Seq<char>, TypeKind<'source>>::empty());
    }
    while i < program.declarations.len()
        invariant
            0 <= i <= ds.len(),
            ds == program.declarations@,
            tc_decls(ds, ds.len() as int) is Some,
            tc_decls(ds, i as int) == Some(
                TcState {
                    errors: typechecker.errors@.map_values(|d: Diagnostic<'source>| d@),
                    program: checked,
                    vars: typechecker.vars(),
                },
            ),
            declarations@.len() == checked.len(),
            forall|j: int|
                0 <= j < checked.len() ==> (#[trigger] declarations@[j] matches typecheck_ast::Declaration::Function(
                    g,
                ) && tc_lowers_function(g, checked[j].0, checked[j].1)),
        decreases ds.len() - i,
    {
        proof {
            lemma_tc_decls_prefix(ds, i + 1, ds.len() as int);
        }
        let ghost vars_before = typechecker.vars();
        match &program.declarations[i] {
            parser_ast::Declaration::Function(function) => match typechecker.visit_function(function) {
                Ok(f) => {
                    declarations.push(typecheck_ast::Declaration::Function(f));
                    proof {
                        checked = checked.push((*function, vars_before));
                    }
                },
                Err(e) => {
                    let ghost old_errors = typechecker.errors@;
                    typechecker.errors.push(e);
                    proof {
                        assert(typechecker.errors@.map_values(|d: Diagnostic<'source>| d@) =~= old_errors.map_values(
                            |d: Diagnostic<'source>| d@,
                        ).push(e@));
                    }
                },
            },
            _ => vstd::pervasive::unreached(),
        }
        i = i + 1;
    }
    (typecheck_ast::Program { declarations }, typechecker.errors)
}

} // verus!
