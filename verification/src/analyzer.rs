//! Semantic analysis: resolves names across modules, infers the type of every
//! expression, checks that types line up, and mangles function names.

use crate::analyzer_ast as analyzer_ast;
use crate::analyzer_ast::{expr_ty, same_type, spec_binary_from, spec_vis_from, type_text, TypeKind, Vis};
use crate::diagnostic::{error_view, Diagnostic, DiagnosticView};
use crate::parser_ast as parser_ast;
use crate::source_span::Span;
use crate::utils::{a_or_an, article, concat, concat3, str_eq};
use vstd::prelude::*;
use vstd::string::*;

verus! {

/// What the analyzer knows of a variable.
#[derive(Clone, Copy, Debug)]
pub struct Variable<'src> {
    pub type_kind: TypeKind<'src>,
    pub mutable: bool,
    pub name_span: Span<'src>,
}

/// What the analyzer keeps of an analyzed function: what a call of it needs.
#[derive(Clone, Copy, Debug)]
pub struct Signature<'src> {
    pub vis: Vis,
    pub ret_ty: TypeKind<'src>,
    pub span: Span<'src>,
}

/// The variables in scope, by name; a later binding hides an earlier one.
pub open spec fn vars_view<'src>(v: Seq<(&'src str, Variable<'src>)>) -> Map<Seq<char>, Variable<'src>>
    decreases v.len(),
{
    if v.len() == 0 {
        Map::empty()
    } else {
        vars_view(v.drop_last()).insert(v.last().0@, v.last().1)
    }
}

/// The analyzed functions, by module and name; a later entry hides an earlier one.
pub open spec fn decls_view<'src>(v: Seq<(String, String, Signature<'src>)>) -> Map<(Seq<char>, Seq<char>), Signature<'src>>
    decreases v.len(),
{
    if v.len() == 0 {
        Map::empty()
    } else {
        decls_view(v.drop_last()).insert((v.last().0@, v.last().1@), v.last().2)
    }
}

/// The names brought into modules by `use`, by module and alias: the full
/// path of the import, and the module and name it splits into.
pub open spec fn mapping_view(v: Seq<(String, String, String, String, String)>) -> Map<
    (Seq<char>, Seq<char>),
    (Seq<char>, Seq<char>, Seq<char>),
>
    decreases v.len(),
{
    if v.len() == 0 {
        Map::empty()
    } else {
        mapping_view(v.drop_last()).insert(
            (v.last().0@, v.last().1@),
            (v.last().2@, v.last().3@, v.last().4@),
        )
    }
}

struct TypecheckedDeclarations<'src>(Vec<(String, String, Signature<'src>)>);

impl<'src> TypecheckedDeclarations<'src> {
    fn new() -> (t: Self)
        ensures
            decls_view(t.0@) == Map::<(Seq<char>, Seq<char>), Signature<'src>>::empty(),
    {
        Self(Vec::new())
    }

    fn insert(&mut self, module_name: &str, decl_name: &str, decl: Signature<'src>)
        ensures
            decls_view(final(self).0@) == decls_view(old(self).0@).insert(
                (module_name@, decl_name@),
                decl,
            ),
    {
        let ghost before = self.0@;
        self.0.push((String::from_str(module_name), String::from_str(decl_name), decl));
        proof {
            assert(self.0@.drop_last() =~= before);
        }
    }

    fn get(&self, module_name: &str, decl_name: &str) -> (r: Option<Signature<'src>>)
        ensures
            decls_view(self.0@).contains_key((module_name@, decl_name@)) ==> r == Some(
                decls_view(self.0@)[(module_name@, decl_name@)],
            ),
            !decls_view(self.0@).contains_key((module_name@, decl_name@)) ==> r is None,
    {
        let mut i = self.0.len();
        assert(self.0@.subrange(0, i as int) =~= self.0@);
        while i > 0
            invariant
                0 <= i <= self.0@.len(),
                decls_view(self.0@).contains_key((module_name@, decl_name@)) <==> decls_view(
                    self.0@.subrange(0, i as int),
                ).contains_key((module_name@, decl_name@)),
                decls_view(self.0@).contains_key((module_name@, decl_name@)) ==> decls_view(
                    self.0@,
                )[(module_name@, decl_name@)] == decls_view(self.0@.subrange(0, i as int))[(
                    module_name@,
                    decl_name@,
                )],
            decreases i,
        {
            let entry = &self.0[i - 1];
            let ghost prefix = self.0@.subrange(0, i as int);
            proof {
                assert(prefix.drop_last() =~= self.0@.subrange(0, i - 1));
            }
            if str_eq(entry.0.as_str(), module_name) && str_eq(entry.1.as_str(), decl_name) {
                return Some(entry.2);
            }
            i = i - 1;
        }
        None
    }
}

struct ContextNameMapping(Vec<(String, String, String, String, String)>);

impl ContextNameMapping {
    fn insert(&mut self, in_module_name: &str, alias: &str, reference: String, module: String, name: String)
        ensures
            mapping_view(final(self).0@) == mapping_view(old(self).0@).insert(
                (in_module_name@, alias@),
                (reference@, module@, name@),
            ),
    {
        let ghost before = self.0@;
        let ghost entry = (reference@, module@, name@);
        self.0.push((String::from_str(in_module_name), String::from_str(alias), reference, module, name));
        proof {
            assert(self.0@.drop_last() =~= before);
        }
    }

    /// The import the alias stands for in the module: its full path, module and name.
    fn get(&self, in_module_name: &str, alias: &str) -> (r: Option<(&String, &String, &String)>)
        ensures
            mapping_view(self.0@).contains_key((in_module_name@, alias@)) ==> (r matches Some(
                (a, b, c),
            ) && (a@, b@, c@) == mapping_view(self.0@)[(in_module_name@, alias@)]),
            !mapping_view(self.0@).contains_key((in_module_name@, alias@)) ==> r is None,
    {
        let mut i = self.0.len();
        assert(self.0@.subrange(0, i as int) =~= self.0@);
        while i > 0
            invariant
                0 <= i <= self.0@.len(),
                mapping_view(self.0@).contains_key((in_module_name@, alias@)) <==> mapping_view(
                    self.0@.subrange(0, i as int),
                ).contains_key((in_module_name@, alias@)),
                mapping_view(self.0@).contains_key((in_module_name@, alias@)) ==> mapping_view(
                    self.0@,
                )[(in_module_name@, alias@)] == mapping_view(self.0@.subrange(0, i as int))[(
                    in_module_name@,
                    alias@,
                )],
            decreases i,
        {
            let entry = &self.0[i - 1];
            let ghost prefix = self.0@.subrange(0, i as int);
            proof {
                assert(prefix.drop_last() =~= self.0@.subrange(0, i - 1));
            }
            if str_eq(entry.0.as_str(), in_module_name) && str_eq(entry.1.as_str(), alias) {
                return Some((&entry.2, &entry.3, &entry.4));
            }
            i = i - 1;
        }
        None
    }
}

/// Looks a variable up by name.
fn lookup_var<'src>(vars: &Vec<(&'src str, Variable<'src>)>, name: &str) -> (r: Option<Variable<'src>>)
    ensures
        vars_view(vars@).contains_key(name@) ==> r == Some(vars_view(vars@)[name@]),
        !vars_view(vars@).contains_key(name@) ==> r is None,
{
    let mut i = vars.len();
    assert(vars@.subrange(0, i as int) =~= vars@);
    while i > 0
        invariant
            0 <= i <= vars@.len(),
            vars_view(vars@).contains_key(name@) <==> vars_view(vars@.subrange(0, i as int)).contains_key(name@),
            vars_view(vars@).contains_key(name@) ==> vars_view(vars@)[name@] == vars_view(
                vars@.subrange(0, i as int),
            )[name@],
        decreases i,
    {
        let ghost prefix = vars@.subrange(0, i as int);
        proof {
            assert(prefix.drop_last() =~= vars@.subrange(0, i - 1));
        }
        if str_eq(vars[i - 1].0, name) {
            return Some(vars[i - 1].1);
        }
        i = i - 1;
    }
    None
}

/// Binds a variable, hiding any earlier one of the same name.
fn insert_var<'src>(vars: &mut Vec<(&'src str, Variable<'src>)>, name: &'src str, var: Variable<'src>)
    ensures
        vars_view(final(vars)@) == vars_view(old(vars)@).insert(name@, var),
{
    let ghost before = vars@;
    vars.push((name, var));
    proof {
        assert(vars@.drop_last() =~= before);
    }
}


/// What expressions can see of the analysis: the current module, the
/// analyzed functions and the names brought in by `use`.
pub ghost struct Ctx<'src> {
    pub module: Seq<char>,
    pub decls: Map<(Seq<char>, Seq<char>), Signature<'src>>,
    pub mapping: Map<(Seq<char>, Seq<char>), (Seq<char>, Seq<char>, Seq<char>)>,
}

/// The outcome of analyzing a piece of a program: a result, a diagnostic
/// that rejects it, or a construct on which the analysis cannot go on (one
/// it does not handle yet, or a broken internal assumption).
pub ghost enum Outcome<'src, T> {
    Done(T),
    Failed(DiagnosticView<'src>),
    Stuck,
}

/// The variables in scope.
pub type Vars<'src> = Map<Seq<char>, Variable<'src>>;

/// Two types line up: the same builtin type, or named types of the same name.
pub open spec fn types_align<'src>(a: TypeKind<'src>, b: TypeKind<'src>) -> bool {
    match (a, b) {
        (TypeKind::Ident(x), TypeKind::Ident(y)) => x.inner@ == y.inner@,
        (TypeKind::Int, TypeKind::Int) => true,
        (TypeKind::Float, TypeKind::Float) => true,
        (TypeKind::String, TypeKind::String) => true,
        (TypeKind::Bool, TypeKind::Bool) => true,
        (TypeKind::Void, TypeKind::Void) => true,
        _ => false,
    }
}

/// The analyzed type for a written one.
pub open spec fn spec_visit_type<'src>(ty: parser_ast::TypeKind<'src>) -> TypeKind<'src> {
    match ty {
        parser_ast::TypeKind::Ident(ident) => TypeKind::Ident(
            analyzer_ast::Ident { inner: ident.inner, span: ident.span },
        ),
        parser_ast::TypeKind::Int => TypeKind::Int,
        parser_ast::TypeKind::Float => TypeKind::Float,
        parser_ast::TypeKind::String => TypeKind::String,
        parser_ast::TypeKind::Bool => TypeKind::Bool,
        parser_ast::TypeKind::Void => TypeKind::Void,
    }
}

/// The analyzed identifier for a parsed one.
pub open spec fn spec_ident<'src>(i: parser_ast::Ident<'src>) -> analyzer_ast::Ident<'src> {
    analyzer_ast::Ident { inner: i.inner, span: i.span }
}

/// What a called name resolves to.
pub ghost enum Resolution<'src> {
    /// The function, and the name the call refers to it by.
    Found(Seq<char>, Signature<'src>),
    /// No function of that name is in scope.
    Missing,
    /// A `use` brought the name in, but its function was never recorded.
    Broken,
}

/// The function a call of `name` in the current module reaches: through a
/// `use`, or else a function of the module itself.
pub open spec fn resolve<'src>(ctx: Ctx<'src>, name: Seq<char>) -> Resolution<'src> {
    if ctx.mapping.contains_key((ctx.module, name)) {
        let (reference, m, n) = ctx.mapping[(ctx.module, name)];
        if ctx.decls.contains_key((m, n)) {
            Resolution::Found(reference, ctx.decls[(m, n)])
        } else {
            Resolution::Broken
        }
    } else if ctx.decls.contains_key((ctx.module, name)) {
        Resolution::Found(ctx.module + "."@ + name, ctx.decls[(ctx.module, name)])
    } else {
        Resolution::Missing
    }
}

/// The article and the type, as messages quote a type.
pub open spec fn quoted<'src>(t: TypeKind<'src>) -> Seq<char> {
    article(type_text(t)) + " '"@ + type_text(t) + "'"@
}

/// The message for operands of a binary operator whose types do not line up.
pub open spec fn mismatch_message<'src>(op: parser_ast::BinaryOp, l: TypeKind<'src>, r: TypeKind<'src>) -> Seq<char> {
    match op {
        parser_ast::BinaryOp::Add => "cannot add "@ + (quoted(l) + " to "@ + quoted(r)),
        parser_ast::BinaryOp::Sub => "cannot subtract "@ + (quoted(r) + " from "@ + quoted(l)),
        parser_ast::BinaryOp::Mul => "cannot multiply "@ + (quoted(l) + " with "@ + quoted(r)),
        parser_ast::BinaryOp::Div => "cannot divide "@ + (quoted(l) + " with "@ + quoted(r)),
        parser_ast::BinaryOp::Mod => "cannot take the remainder of "@ + (quoted(l) + " with "@ + quoted(
            r,
        )),
        parser_ast::BinaryOp::Exp => "cannot take exponentiate "@ + (quoted(l) + " with "@ + quoted(
            r,
        )),
        _ => "cannot compare "@ + (quoted(l) + " with "@ + quoted(r)),
    }
}

/// Whether the operator is `and` or `or`.
pub open spec fn is_logical(op: parser_ast::BinaryOp) -> bool {
    op == parser_ast::BinaryOp::And || op == parser_ast::BinaryOp::Or
}

/// The type of a binary expression: a comparison gives a boolean, every other
/// operator the type of its left operand.
pub open spec fn binary_type<'src>(op: parser_ast::BinaryOp, lt: TypeKind<'src>) -> TypeKind<'src> {
    if op.is_comparison() {
        TypeKind::Bool
    } else {
        lt
    }
}

/// The check of a binary operator on operands of types `lt` and `rt`: `and`
/// and `or` are refused when neither side is a boolean, and every operator
/// when the types do not line up.
pub open spec fn check_binary<'src>(
    op: parser_ast::BinaryOp,
    lt: TypeKind<'src>,
    rt: TypeKind<'src>,
    span: Span<'src>,
    lspan: Span<'src>,
    rspan: Span<'src>,
) -> Outcome<'src, TypeKind<'src>> {
    if is_logical(op) && !(lt is Bool) && !(rt is Bool) {
        Outcome::Failed(
            error_view(span, "Only boolean expression allowed on either side of 'and' or 'or'"@),
        )
    } else if !types_align(lt, rt) {
        if is_logical(op) || type_text(lt).len() == 0 || type_text(rt).len() == 0 {
            Outcome::Stuck
        } else {
            Outcome::Failed(
                error_view(span, mismatch_message(op, lt, rt)).with_error_label(
                    lspan,
                    "This is "@ + quoted(lt),
                ).with_error_label(rspan, "This is "@ + quoted(rt)),
            )
        }
    } else {
        Outcome::Done(binary_type(op, lt))
    }
}

/// The diagnostic for a call of a private function.
pub open spec fn private_call<'src>(callee: Span<'src>, defined: Span<'src>) -> DiagnosticView<'src> {
    error_view(callee, "Private function"@).with_error_label(callee, "This function is private"@).with_info_label(
        defined,
        "Function defined here"@,
    ).with_help("make the function `internal` or `public` to use it"@)
}

/// The type of an expression and the variables in scope after it.
pub open spec fn analyze_expr<'src>(e: parser_ast::Expr<'src>, vars: Vars<'src>, ctx: Ctx<'src>) -> Outcome<'src, (TypeKind<'src>, Vars<'src>)>
    decreases e, 0int,
{
    match e.kind {
        parser_ast::ExprKind::IntLiteral(_) => Outcome::Done((TypeKind::Int, vars)),
        parser_ast::ExprKind::FloatLiteral(_) => Outcome::Done((TypeKind::Float, vars)),
        parser_ast::ExprKind::StringLiteral(_) => Outcome::Done((TypeKind::String, vars)),
        parser_ast::ExprKind::StringInterpolation(es) => match analyze_exprs(es@, es@.len() as int, vars, ctx) {
            Outcome::Done(v) => Outcome::Done((TypeKind::String, v)),
            Outcome::Failed(d) => Outcome::Failed(d),
            Outcome::Stuck => Outcome::Stuck,
        },
        parser_ast::ExprKind::Ident(i) => if vars.contains_key(i.inner@) {
            Outcome::Done((vars[i.inner@].type_kind, vars))
        } else {
            Outcome::Stuck
        },
        parser_ast::ExprKind::Binary { op, left, right } => match analyze_expr(*left, vars, ctx) {
            Outcome::Done((lt, v1)) => match analyze_expr(*right, v1, ctx) {
                Outcome::Done((rt, v2)) => match check_binary(op, lt, rt, e.span, left.span, right.span) {
                    Outcome::Done(t) => Outcome::Done((t, v2)),
                    Outcome::Failed(d) => Outcome::Failed(d),
                    Outcome::Stuck => Outcome::Stuck,
                },
                Outcome::Failed(d) => Outcome::Failed(d),
                Outcome::Stuck => Outcome::Stuck,
            },
            Outcome::Failed(d) => Outcome::Failed(d),
            Outcome::Stuck => Outcome::Stuck,
        },
        parser_ast::ExprKind::Call(c) => match c.callee.kind {
            parser_ast::ExprKind::Ident(id) => match resolve(ctx, id.inner@) {
                Resolution::Found(_, sig) => if sig.vis == Vis::Private {
                    Outcome::Failed(private_call(c.callee.span, sig.span))
                } else {
                    match analyze_exprs(c.args@, c.args@.len() as int, vars, ctx) {
                        Outcome::Done(v) => Outcome::Done((sig.ret_ty, v)),
                        _ => Outcome::Stuck,
                    }
                },
                Resolution::Missing => Outcome::Failed(
                    error_view(c.callee.span, "Couldn't find '"@ + id.inner@ + "'"@),
                ),
                Resolution::Broken => Outcome::Stuck,
            },
            _ => Outcome::Stuck,
        },
        parser_ast::ExprKind::If { cond, then, else_if_blocks, else_block } => match analyze_expr(*cond, vars, ctx) {
            Outcome::Done((ct, v1)) => if !(ct is Bool) {
                Outcome::Failed(
                    error_view(cond.span, "Only boolean expressions allowed in if checks"@).with_error_label(
                        cond.span,
                        "here"@,
                    ),
                )
            } else {
                match analyze_block(then, v1, ctx) {
                    Outcome::Done((tt, v2)) => match analyze_else_ifs(else_if_blocks@, else_if_blocks@.len() as int, v2, ctx) {
                        Outcome::Done(v3) => match else_block {
                            Some(b) => match analyze_block(b, v3, ctx) {
                                Outcome::Done((_, v4)) => Outcome::Done((tt, v4)),
                                Outcome::Failed(d) => Outcome::Failed(d),
                                Outcome::Stuck => Outcome::Stuck,
                            },
                            None => Outcome::Done((tt, v3)),
                        },
                        Outcome::Failed(d) => Outcome::Failed(d),
                        Outcome::Stuck => Outcome::Stuck,
                    },
                    Outcome::Failed(d) => Outcome::Failed(d),
                    Outcome::Stuck => Outcome::Stuck,
                }
            },
            Outcome::Failed(d) => Outcome::Failed(d),
            Outcome::Stuck => Outcome::Stuck,
        },
        _ => Outcome::Stuck,
    }
}

/// Reading a function declaration of module `module`: when the function is
/// accepted, its signature is recorded under the module and its name, every
/// other recorded declaration stays as it was, and the function is added to
/// the analyzed program; when it is refused, only its error is added.
pub proof fn law_function_declaration<'src>(
    files: Map<Seq<char>, parser_ast::Program<'src>>,
    st: State<'src>,
    module: Seq<char>,
    f: parser_ast::Function<'src>,
    fuel: nat,
)
    ensures
        ({
            let key = (module, f.name.inner@);
            let after = analyze_decl(files, st, module, parser_ast::Declaration::Function(f), fuel);
            match analyze_function(f, ctx_of(st, module)) {
                Outcome::Done(sig) => after matches Some(s2) && s2.decls.contains_key(key)
                    && s2.decls[key] == sig && (forall|k: (Seq<char>, Seq<char>)|
                    k != key ==> (#[trigger] s2.decls.contains_key(k) == st.decls.contains_key(k)
                        && s2.decls[k] == st.decls[k])) && s2.program == st.program.push(
                    (f, ctx_of(st, module)),
                ) && s2.errors == st.errors && s2.mapping == st.mapping,
                Outcome::Failed(e) => after == Some(State { errors: st.errors.push(e), ..st }),
                Outcome::Stuck => after is None,
            }
        }),
{
}

/// Whether an expression holds no block, so that reading it declares no
/// variable.
pub open spec fn block_free<'src>(e: parser_ast::Expr<'src>) -> bool
    decreases e, 0int,
{
    match e.kind {
        parser_ast::ExprKind::StringInterpolation(es) => all_block_free(es@, es@.len() as int),
        parser_ast::ExprKind::Binary { left, right, .. } => block_free(*left) && block_free(*right),
        parser_ast::ExprKind::Call(c) => all_block_free(c.args@, c.args@.len() as int),
        parser_ast::ExprKind::If { .. } => false,
        _ => true,
    }
}

/// Whether none of the first `n` expressions holds a block.
pub open spec fn all_block_free<'src>(es: Seq<parser_ast::Expr<'src>>, n: int) -> bool
    decreases es, n,
{
    if n <= 0 || n > es.len() {
        true
    } else {
        all_block_free(es, n - 1) && block_free(es[n - 1])
    }
}

/// Whether a statement holds no block, so that reading it declares no
/// variable but the one a `let` declares.
pub open spec fn stmt_block_free<'src>(st: parser_ast::Statement<'src>) -> bool {
    match st {
        parser_ast::Statement::Let { expr, .. } => block_free(expr),
        parser_ast::Statement::Assign { expr, .. } => block_free(expr),
        parser_ast::Statement::Return { expr, .. } => match expr {
            Some(e) => block_free(e),
            None => true,
        },
        parser_ast::Statement::Expr(e) => block_free(e),
        _ => false,
    }
}

/// Reading an expression that holds no block leaves the variables in scope
/// as they were.
pub proof fn law_block_free_keeps_vars<'src>(e: parser_ast::Expr<'src>, vars: Vars<'src>, ctx: Ctx<'src>)
    requires
        block_free(e),
    ensures
        analyze_expr(e, vars, ctx) matches Outcome::Done((_, v)) ==> v == vars,
    decreases e, 0int,
{
    match e.kind {
        parser_ast::ExprKind::StringInterpolation(es) => {
            lemma_all_block_free_keeps_vars(es@, es@.len() as int, vars, ctx);
        },
        parser_ast::ExprKind::Binary { left, right, .. } => {
            law_block_free_keeps_vars(*left, vars, ctx);
            law_block_free_keeps_vars(*right, vars, ctx);
        },
        parser_ast::ExprKind::Call(c) => {
            lemma_all_block_free_keeps_vars(c.args@, c.args@.len() as int, vars, ctx);
        },
        _ => {},
    }
}

proof fn lemma_all_block_free_keeps_vars<'src>(
    es: Seq<parser_ast::Expr<'src>>,
    n: int,
    vars: Vars<'src>,
    ctx: Ctx<'src>,
)
    requires
        all_block_free(es, n),
    ensures
        analyze_exprs(es, n, vars, ctx) matches Outcome::Done(v) ==> v == vars,
    decreases es, n,
{
    if 0 < n <= es.len() {
        lemma_all_block_free_keeps_vars(es, n - 1, vars, ctx);
        law_block_free_keeps_vars(es[n - 1], vars, ctx);
    }
}

proof fn lemma_all_block_free_prefix<'src>(es: Seq<parser_ast::Expr<'src>>, n: int, k: int)
    requires
        all_block_free(es, n),
        0 <= k <= n <= es.len(),
    ensures
        all_block_free(es, k),
        k < n ==> block_free(es[k]),
    decreases n,
{
    if k < n {
        if k < n - 1 {
            lemma_all_block_free_prefix(es, n - 1, k);
        }
    }
}

/// The variables in scope after the first `n` expressions, left to right.
pub open spec fn analyze_exprs<'src>(es: Seq<parser_ast::Expr<'src>>, n: int, vars: Vars<'src>, ctx: Ctx<'src>) -> Outcome<'src, Vars<'src>>
    decreases es, n,
{
    if n <= 0 || n > es.len() {
        Outcome::Done(vars)
    } else {
        match analyze_exprs(es, n - 1, vars, ctx) {
            Outcome::Done(v) => match analyze_expr(es[n - 1], v, ctx) {
                Outcome::Done((_, v2)) => Outcome::Done(v2),
                Outcome::Failed(d) => Outcome::Failed(d),
                Outcome::Stuck => Outcome::Stuck,
            },
            Outcome::Failed(d) => Outcome::Failed(d),
            Outcome::Stuck => Outcome::Stuck,
        }
    }
}

/// The variables in scope after the first `n` else-if branches.
pub open spec fn analyze_else_ifs<'src>(ps: Seq<(parser_ast::Expr<'src>, parser_ast::Block<'src>)>, n: int, vars: Vars<'src>, ctx: Ctx<'src>) -> Outcome<'src, Vars<'src>>
    decreases ps, n,
{
    if n <= 0 || n > ps.len() {
        Outcome::Done(vars)
    } else {
        match analyze_else_ifs(ps, n - 1, vars, ctx) {
            Outcome::Done(v) => match analyze_expr(ps[n - 1].0, v, ctx) {
                Outcome::Done((_, v2)) => match analyze_block(ps[n - 1].1, v2, ctx) {
                    Outcome::Done((_, v3)) => Outcome::Done(v3),
                    Outcome::Failed(d) => Outcome::Failed(d),
                    Outcome::Stuck => Outcome::Stuck,
                },
                Outcome::Failed(d) => Outcome::Failed(d),
                Outcome::Stuck => Outcome::Stuck,
            },
            Outcome::Failed(d) => Outcome::Failed(d),
            Outcome::Stuck => Outcome::Stuck,
        }
    }
}

/// The type of a block (that of its last statement) and the variables in scope after it.
pub open spec fn analyze_block<'src>(b: parser_ast::Block<'src>, vars: Vars<'src>, ctx: Ctx<'src>) -> Outcome<'src, (TypeKind<'src>, Vars<'src>)>
    decreases b, 0int,
{
    analyze_stmts(b.statements@, b.statements@.len() as int, vars, ctx)
}

/// The type the `n`-th statement gives the block and the variables in scope
/// after the first `n` statements; `void` when `n` is zero.
pub open spec fn analyze_stmts<'src>(ss: Seq<parser_ast::Statement<'src>>, n: int, vars: Vars<'src>, ctx: Ctx<'src>) -> Outcome<'src, (TypeKind<'src>, Vars<'src>)>
    decreases ss, n,
{
    if n <= 0 || n > ss.len() {
        Outcome::Done((TypeKind::Void, vars))
    } else {
        match analyze_stmts(ss, n - 1, vars, ctx) {
            Outcome::Done((_, v)) => analyze_stmt(ss[n - 1], v, ctx),
            Outcome::Failed(d) => Outcome::Failed(d),
            Outcome::Stuck => Outcome::Stuck,
        }
    }
}

/// The variables in scope after the condition of a loop.
pub open spec fn analyze_loop_cond<'src>(cond: Option<parser_ast::Expr<'src>>, span: Span<'src>, vars: Vars<'src>, ctx: Ctx<'src>) -> Outcome<'src, Vars<'src>>
    decreases cond, 1int,
{
    match cond {
        Some(c) => match analyze_expr(c, vars, ctx) {
            Outcome::Done((ct, v)) => if ct is Bool {
                Outcome::Done(v)
            } else {
                Outcome::Failed(
                    error_view(span, "Expected the condition to be a boolean"@).with_error_label(
                        span,
                        "here"@,
                    ),
                )
            },
            Outcome::Failed(d) => Outcome::Failed(d),
            Outcome::Stuck => Outcome::Stuck,
        },
        None => Outcome::Done(vars),
    }
}

/// The type a statement gives the block when it comes last, and the
/// variables in scope after it.
pub open spec fn analyze_stmt<'src>(s: parser_ast::Statement<'src>, vars: Vars<'src>, ctx: Ctx<'src>) -> Outcome<'src, (TypeKind<'src>, Vars<'src>)>
    decreases s, 2int,
{
    match s {
        parser_ast::Statement::Let { name, expr, mutable, .. } => match analyze_expr(expr, vars, ctx) {
            Outcome::Done((t, v1)) => Outcome::Done(
                (
                    TypeKind::Void,
                    v1.insert(name.inner@, Variable { type_kind: t, mutable, name_span: name.span }),
                ),
            ),
            Outcome::Failed(d) => Outcome::Failed(d),
            Outcome::Stuck => Outcome::Stuck,
        },
        parser_ast::Statement::Assign { name, expr, span } => match analyze_expr(expr, vars, ctx) {
            Outcome::Done((t, v1)) => if !v1.contains_key(name.inner@) {
                Outcome::Failed(
                    error_view(
                        span,
                        "A variable with the name '"@ + name.inner@ + "' does not exist"@,
                    ).with_error_label(span, "here"@),
                )
            } else if !v1[name.inner@].mutable {
                Outcome::Failed(
                    error_view(span, "Variable is not mutable"@).with_error_label(
                        v1[name.inner@].name_span,
                        "Variable defined here. Consider making it mutable"@,
                    ),
                )
            } else if !same_type(v1[name.inner@].type_kind, t) {
                Outcome::Failed(
                    error_view(span, "Mismatched types"@).with_error_label(
                        name.span,
                        "This variable has type '"@ + type_text(v1[name.inner@].type_kind)
                            + "', but is being assigned a(n) '"@ + type_text(t) + "'"@,
                    ),
                )
            } else {
                Outcome::Done((TypeKind::Void, v1))
            },
            Outcome::Failed(d) => Outcome::Failed(d),
            Outcome::Stuck => Outcome::Stuck,
        },
        parser_ast::Statement::Return { expr, .. } => match expr {
            Some(e) => analyze_expr(e, vars, ctx),
            None => Outcome::Done((TypeKind::Void, vars)),
        },
        parser_ast::Statement::ForLoop { span, cond, block } => match analyze_loop_cond(cond, span, vars, ctx) {
            Outcome::Done(v1) => match analyze_block(block, v1, ctx) {
                Outcome::Done((_, v2)) => Outcome::Done((TypeKind::Void, v2)),
                Outcome::Failed(d) => Outcome::Failed(d),
                Outcome::Stuck => Outcome::Stuck,
            },
            Outcome::Failed(d) => Outcome::Failed(d),
            Outcome::Stuck => Outcome::Stuck,
        },
        parser_ast::Statement::Expr(e) => analyze_expr(e, vars, ctx),
        _ => Outcome::Stuck,
    }
}

/// The type an expression has, where it has one.
pub open spec fn expr_type<'src>(e: parser_ast::Expr<'src>, vars: Vars<'src>, ctx: Ctx<'src>) -> TypeKind<'src> {
    match analyze_expr(e, vars, ctx) {
        Outcome::Done((t, _)) => t,
        _ => TypeKind::Void,
    }
}

/// The variables in scope after an expression.
pub open spec fn expr_vars<'src>(e: parser_ast::Expr<'src>, vars: Vars<'src>, ctx: Ctx<'src>) -> Vars<'src> {
    match analyze_expr(e, vars, ctx) {
        Outcome::Done((_, v)) => v,
        _ => vars,
    }
}

/// The variables in scope after the first `n` expressions.
pub open spec fn exprs_vars<'src>(es: Seq<parser_ast::Expr<'src>>, n: int, vars: Vars<'src>, ctx: Ctx<'src>) -> Vars<'src> {
    match analyze_exprs(es, n, vars, ctx) {
        Outcome::Done(v) => v,
        _ => vars,
    }
}

/// The variables in scope after the first `n` else-if branches.
pub open spec fn else_ifs_vars<'src>(ps: Seq<(parser_ast::Expr<'src>, parser_ast::Block<'src>)>, n: int, vars: Vars<'src>, ctx: Ctx<'src>) -> Vars<'src> {
    match analyze_else_ifs(ps, n, vars, ctx) {
        Outcome::Done(v) => v,
        _ => vars,
    }
}

/// The type of a block, where it has one.
pub open spec fn block_type<'src>(b: parser_ast::Block<'src>, vars: Vars<'src>, ctx: Ctx<'src>) -> TypeKind<'src> {
    match analyze_block(b, vars, ctx) {
        Outcome::Done((t, _)) => t,
        _ => TypeKind::Void,
    }
}

/// The variables in scope after a block.
pub open spec fn block_vars<'src>(b: parser_ast::Block<'src>, vars: Vars<'src>, ctx: Ctx<'src>) -> Vars<'src> {
    match analyze_block(b, vars, ctx) {
        Outcome::Done((_, v)) => v,
        _ => vars,
    }
}

/// The variables in scope after the first `n` statements.
pub open spec fn stmts_vars<'src>(ss: Seq<parser_ast::Statement<'src>>, n: int, vars: Vars<'src>, ctx: Ctx<'src>) -> Vars<'src> {
    match analyze_stmts(ss, n, vars, ctx) {
        Outcome::Done((_, v)) => v,
        _ => vars,
    }
}

/// The variables in scope after the condition of a loop.
pub open spec fn loop_cond_vars<'src>(cond: Option<parser_ast::Expr<'src>>, span: Span<'src>, vars: Vars<'src>, ctx: Ctx<'src>) -> Vars<'src> {
    match analyze_loop_cond(cond, span, vars, ctx) {
        Outcome::Done(v) => v,
        _ => vars,
    }
}

/// `out` is what the analysis makes of the expression `e`, analyzed with
/// `vars` in scope: the same construct, every part analyzed in turn, with
/// the types found and calls carrying the name of the function they reach.
pub open spec fn lowers_expr<'src>(out: analyzer_ast::Expr<'src>, e: parser_ast::Expr<'src>, vars: Vars<'src>, ctx: Ctx<'src>) -> bool
    decreases e, 0int,
{
    match e.kind {
        parser_ast::ExprKind::IntLiteral(i) => out == analyzer_ast::Expr::IntLiteral(i),
        parser_ast::ExprKind::FloatLiteral(f) => out == analyzer_ast::Expr::FloatLiteral(f),
        parser_ast::ExprKind::StringLiteral(s) => out == analyzer_ast::Expr::StringLiteral(s),
        parser_ast::ExprKind::StringInterpolation(es) => out matches analyzer_ast::Expr::StringInterpolation(os)
            && os@.len() == es@.len() && lowers_exprs(os@, es@, es@.len() as int, vars, ctx),
        parser_ast::ExprKind::Ident(i) => out == analyzer_ast::Expr::Ident {
            ident: spec_ident(i),
            ty: vars[i.inner@].type_kind,
        },
        parser_ast::ExprKind::Binary { op, left, right } => out matches analyzer_ast::Expr::Binary {
            op: o,
            left: l,
            right: r,
            ty,
        } && o == spec_binary_from(op) && lowers_expr(*l, *left, vars, ctx) && lowers_expr(
            *r,
            *right,
            expr_vars(*left, vars, ctx),
            ctx,
        ) && ty == binary_type(op, expr_type(*left, vars, ctx)),
        parser_ast::ExprKind::Call(c) => match c.callee.kind {
            parser_ast::ExprKind::Ident(id) => match resolve(ctx, id.inner@) {
                Resolution::Found(name, sig) => out matches analyzer_ast::Expr::Call { call, ty }
                    && call.callee@ == name && ty == sig.ret_ty && call.args@.len() == c.args@.len()
                    && lowers_exprs(call.args@, c.args@, c.args@.len() as int, vars, ctx),
                _ => false,
            },
            _ => false,
        },
        parser_ast::ExprKind::If { cond, then, else_if_blocks, else_block } => {
            let v1 = expr_vars(*cond, vars, ctx);
            let v2 = block_vars(then, v1, ctx);
            let v3 = else_ifs_vars(else_if_blocks@, else_if_blocks@.len() as int, v2, ctx);
            out matches analyzer_ast::Expr::If {
                ty,
                cond: oc,
                then: ot,
                else_if_blocks: oe,
                else_block: ob,
            } && lowers_expr(*oc, *cond, vars, ctx) && lowers_block(ot, then, v1, ctx) && ty
                == block_type(then, v1, ctx) && oe@.len() == else_if_blocks@.len()
                && lowers_else_ifs(oe@, else_if_blocks@, else_if_blocks@.len() as int, v2, ctx)
                && (match else_block {
                Some(b) => ob matches Some(x) && lowers_block(x, b, v3, ctx),
                None => ob is None,
            })
        },
        _ => false,
    }
}

/// The first `n` of `os` are what the analysis makes of the first `n` of `es`,
/// analyzed left to right.
pub open spec fn lowers_exprs<'src>(os: Seq<analyzer_ast::Expr<'src>>, es: Seq<parser_ast::Expr<'src>>, n: int, vars: Vars<'src>, ctx: Ctx<'src>) -> bool
    decreases es, n,
{
    if n <= 0 || n > es.len() {
        n == 0
    } else {
        lowers_exprs(os, es, n - 1, vars, ctx) && lowers_expr(
            os[n - 1],
            es[n - 1],
            exprs_vars(es, n - 1, vars, ctx),
            ctx,
        )
    }
}

/// The first `n` of `os` are what the analysis makes of the first `n` else-if branches.
pub open spec fn lowers_else_ifs<'src>(
    os: Seq<(analyzer_ast::Expr<'src>, analyzer_ast::Block<'src>)>,
    ps: Seq<(parser_ast::Expr<'src>, parser_ast::Block<'src>)>,
    n: int,
    vars: Vars<'src>,
    ctx: Ctx<'src>,
) -> bool
    decreases ps, n,
{
    if n <= 0 || n > ps.len() {
        n == 0
    } else {
        let v = else_ifs_vars(ps, n - 1, vars, ctx);
        lowers_else_ifs(os, ps, n - 1, vars, ctx) && lowers_expr(os[n - 1].0, ps[n - 1].0, v, ctx)
            && lowers_block(os[n - 1].1, ps[n - 1].1, expr_vars(ps[n - 1].0, v, ctx), ctx)
    }
}

/// `out` is what the analysis makes of the block `b`.
pub open spec fn lowers_block<'src>(out: analyzer_ast::Block<'src>, b: parser_ast::Block<'src>, vars: Vars<'src>, ctx: Ctx<'src>) -> bool
    decreases b, 0int,
{
    &&& out.span == b.span
    &&& out.ty == block_type(b, vars, ctx)
    &&& out.statements@.len() == b.statements@.len()
    &&& lowers_stmts(out.statements@, b.statements@, b.statements@.len() as int, vars, ctx)
}

/// The first `n` of `os` are what the analysis makes of the first `n` statements.
pub open spec fn lowers_stmts<'src>(os: Seq<analyzer_ast::Statement<'src>>, ss: Seq<parser_ast::Statement<'src>>, n: int, vars: Vars<'src>, ctx: Ctx<'src>) -> bool
    decreases ss, n,
{
    if n <= 0 || n > ss.len() {
        n == 0
    } else {
        lowers_stmts(os, ss, n - 1, vars, ctx) && lowers_stmt(
            os[n - 1],
            ss[n - 1],
            stmts_vars(ss, n - 1, vars, ctx),
            ctx,
        )
    }
}

/// `out` is what the analysis makes of the statement `s`.
pub open spec fn lowers_stmt<'src>(out: analyzer_ast::Statement<'src>, s: parser_ast::Statement<'src>, vars: Vars<'src>, ctx: Ctx<'src>) -> bool
    decreases s, 2int,
{
    match s {
        parser_ast::Statement::Let { name, expr, mutable, span, .. } => out matches analyzer_ast::Statement::Let {
            name: n2,
            ty,
            expr: e2,
            mutable: m2,
            span: s2,
        } && n2 == spec_ident(name) && ty == expr_type(expr, vars, ctx) && lowers_expr(e2, expr, vars, ctx)
            && m2 == mutable && s2 == span,
        parser_ast::Statement::Assign { name, expr, span } => out matches analyzer_ast::Statement::Assign {
            name: n2,
            expr: e2,
            span: s2,
        } && n2 == spec_ident(name) && lowers_expr(e2, expr, vars, ctx) && s2 == span,
        parser_ast::Statement::Return { span, expr } => out matches analyzer_ast::Statement::Return {
            span: s2,
            expr: e2,
            ty,
        } && s2 == span && (match expr {
            Some(e) => e2 matches Some(x) && lowers_expr(x, e, vars, ctx) && ty == expr_type(e, vars, ctx),
            None => e2 is None && ty is Void,
        }),
        parser_ast::Statement::ForLoop { span, cond, block } => out matches analyzer_ast::Statement::ForLoop {
            span: s2,
            cond: c2,
            block: b2,
        } && s2 == span && (match cond {
            Some(c) => c2 matches Some(x) && lowers_expr(x, c, vars, ctx),
            None => c2 is None,
        }) && lowers_block(b2, block, loop_cond_vars(cond, span, vars, ctx), ctx),
        parser_ast::Statement::Expr(e) => out matches analyzer_ast::Statement::Expr(e2) && lowers_expr(
            e2,
            e,
            vars,
            ctx,
        ) && expr_ty(e2) == expr_type(e, vars, ctx),
        _ => false,
    }
}

/// The type an analyzed statement gives its block when it comes last.
pub open spec fn stmt_type<'src>(s: analyzer_ast::Statement<'src>) -> TypeKind<'src> {
    match s {
        analyzer_ast::Statement::Return { ty, .. } => ty,
        analyzer_ast::Statement::Expr(e) => expr_ty(e),
        _ => TypeKind::Void,
    }
}

/// The variables a function starts with: its first `n` parameters, none mutable.
pub open spec fn params_vars<'src>(ps: Seq<parser_ast::Param<'src>>, n: int) -> Vars<'src>
    decreases n,
{
    if n <= 0 || n > ps.len() {
        Map::empty()
    } else {
        params_vars(ps, n - 1).insert(
            ps[n - 1].name.inner@,
            Variable {
                type_kind: spec_visit_type(ps[n - 1].ty.kind),
                mutable: false,
                name_span: ps[n - 1].span,
            },
        )
    }
}

/// `out` is the analyzed parameter for `p`.
pub open spec fn lowers_param<'src>(out: analyzer_ast::Param<'src>, p: parser_ast::Param<'src>) -> bool {
    &&& out.span == p.span
    &&& out.name == spec_ident(p.name)
    &&& out.ty == (analyzer_ast::Type { span: p.ty.span, kind: spec_visit_type(p.ty.kind) })
    &&& out.default is None
}

/// Whether the function is the builtin `print` of a standard module, whose
/// body is not analyzed.
pub open spec fn is_builtin_print<'src>(module: Seq<char>, f: parser_ast::Function<'src>) -> bool {
    module.len() >= 4 && module.subrange(0, 4) == "std."@ && f.name.inner@ == "print"@
}

/// The name a function is known by after analysis: `main` stays `main`,
/// every other function is prefixed with its module.
pub open spec fn function_name<'src>(module: Seq<char>, f: parser_ast::Function<'src>) -> Seq<char> {
    if f.name.inner@ == "main"@ {
        "main"@
    } else {
        module + "."@ + f.name.inner@
    }
}

/// The diagnostic for a function whose body does not have its declared return type.
pub open spec fn return_mismatch<'src>(f: parser_ast::Function<'src>, found: TypeKind<'src>) -> DiagnosticView<'src> {
    let declared = type_text(spec_visit_type(f.ret_ty.kind));
    error_view(f.ret_ty.span, "Mismatched return type of function"@).with_info_label(
        f.ret_ty.span,
        "Return type defined as "@ + declared,
    ).with_error_label(
        parser_ast::statement_span(f.body.statements@.last()),
        "Mismatched types. Expected '"@ + declared + "' found '"@ + type_text(found) + "'"@,
    )
}

/// The analysis of a function: what a call of it needs to know.
pub open spec fn analyze_function<'src>(f: parser_ast::Function<'src>, ctx: Ctx<'src>) -> Outcome<'src, Signature<'src>> {
    if is_builtin_print(ctx.module, f) {
        Outcome::Done(Signature { vis: Vis::Public, ret_ty: TypeKind::Void, span: f.span })
    } else {
        match analyze_block(f.body, params_vars(f.params@, f.params@.len() as int), ctx) {
            Outcome::Done((bt, _)) => if !types_align(spec_visit_type(f.ret_ty.kind), bt) {
                if f.body.statements@.len() == 0 {
                    Outcome::Stuck
                } else {
                    Outcome::Failed(return_mismatch(f, bt))
                }
            } else {
                Outcome::Done(Signature { vis: spec_vis_from(f.vis), ret_ty: bt, span: f.span })
            },
            Outcome::Failed(d) => Outcome::Failed(d),
            Outcome::Stuck => Outcome::Stuck,
        }
    }
}

/// `out` is what the analysis makes of the function `f`.
pub open spec fn lowers_function<'src>(out: analyzer_ast::Function<'src>, f: parser_ast::Function<'src>, ctx: Ctx<'src>) -> bool {
    &&& out.span == f.span
    &&& out.params@.len() == f.params@.len()
    &&& forall|i: int| 0 <= i < f.params@.len() ==> lowers_param(#[trigger] out.params@[i], f.params@[i])
    &&& if is_builtin_print(ctx.module, f) {
        &&& out.name@ == ctx.module + "."@ + f.name.inner@
        &&& out.ret_ty is Void
        &&& out.vis == Vis::Public
        &&& out.body.span == f.body.span
        &&& out.body.statements@.len() == 0
        &&& out.body.ty is Void
    } else {
        &&& out.name@ == function_name(ctx.module, f)
        &&& lowers_block(out.body, f.body, params_vars(f.params@, f.params@.len() as int), ctx)
        &&& out.ret_ty == out.body.ty
        &&& out.vis == spec_vis_from(f.vis)
    }
}

/// The signature an analyzed function is recorded with.
pub open spec fn signature_of<'src>(f: analyzer_ast::Function<'src>) -> Signature<'src> {
    Signature { vis: f.vis, ret_ty: f.ret_ty, span: f.span }
}

/// `out` is what the analysis made of the function recorded in `l`, with the context it had.
pub open spec fn lowers_decl<'src>(out: analyzer_ast::Declaration<'src>, l: (parser_ast::Function<'src>, Ctx<'src>)) -> bool {
    out matches analyzer_ast::Declaration::Function(g) && lowers_function(g, l.0, l.1)
}

/// The state of an analysis of a whole program: the analyzed functions, the
/// names brought in by `use`, the diagnostics, and the functions that made it
/// into the program, each with the context it was analyzed in.
pub ghost struct State<'src> {
    pub decls: Map<(Seq<char>, Seq<char>), Signature<'src>>,
    pub mapping: Map<(Seq<char>, Seq<char>), (Seq<char>, Seq<char>, Seq<char>)>,
    pub errors: Seq<DiagnosticView<'src>>,
    pub program: Seq<(parser_ast::Function<'src>, Ctx<'src>)>,
}

/// The context in which declarations of `module` are analyzed.
pub open spec fn ctx_of<'src>(st: State<'src>, module: Seq<char>) -> Ctx<'src> {
    Ctx { module, decls: st.decls, mapping: st.mapping }
}

/// The modules of a program by name; a later entry replaces an earlier one.
pub open spec fn files_view<'src>(v: Seq<(String, parser_ast::Program<'src>)>) -> Map<Seq<char>, parser_ast::Program<'src>>
    decreases v.len(),
{
    if v.len() == 0 {
        Map::empty()
    } else {
        files_view(v.drop_last()).insert(v.last().0@, v.last().1)
    }
}

/// The first `n` names of a path, joined by dots.
pub open spec fn join_dots<'src>(ids: Seq<parser_ast::Ident<'src>>, n: int) -> Seq<char>
    decreases n,
{
    if n <= 0 || n > ids.len() {
        Seq::empty()
    } else if n == 1 {
        ids[0].inner@
    } else {
        join_dots(ids, n - 1) + "."@ + ids[n - 1].inner@
    }
}

/// The analysis of one declaration of `module`, or `None` where it cannot go on.
pub open spec fn analyze_decl<'src>(
    files: Map<Seq<char>, parser_ast::Program<'src>>,
    st: State<'src>,
    module: Seq<char>,
    d: parser_ast::Declaration<'src>,
    fuel: nat,
) -> Option<State<'src>>
    decreases fuel, 1int,
{
    match d {
        parser_ast::Declaration::Function(f) => match analyze_function(f, ctx_of(st, module)) {
            Outcome::Done(sig) => Some(
                State {
                    decls: st.decls.insert((module, f.name.inner@), sig),
                    program: st.program.push((f, ctx_of(st, module))),
                    ..st
                },
            ),
            Outcome::Failed(e) => Some(State { errors: st.errors.push(e), ..st }),
            Outcome::Stuck => None,
        },
        parser_ast::Declaration::Use(u) => {
            let ids = u.import@;
            if ids.len() == 0 {
                None
            } else {
                let last = ids.last().inner@;
                let path = join_dots(ids, ids.len() - 1);
                let name = if files.contains_key(path) {
                    path
                } else {
                    path + "."@ + last
                };
                if !files.contains_key(name) {
                    Some(State { errors: st.errors.push(error_view(u.span, "Unknown module "@ + name)), ..st })
                } else {
                    let s1 = if st.decls.contains_key((name, last)) {
                        Some(st)
                    } else {
                        analyze_module(files, st, name, fuel)
                    };
                    match s1 {
                        Some(s) => if s.decls.contains_key((name, last)) {
                            Some(
                                State {
                                    mapping: s.mapping.insert(
                                        (module, last),
                                        (join_dots(ids, ids.len() as int), path, last),
                                    ),
                                    ..s
                                },
                            )
                        } else {
                            None
                        },
                        None => None,
                    }
                }
            }
        },
        _ => None,
    }
}

/// The analysis of the first `n` declarations of `module`, in order.
pub open spec fn analyze_decls<'src>(
    files: Map<Seq<char>, parser_ast::Program<'src>>,
    st: State<'src>,
    module: Seq<char>,
    ds: Seq<parser_ast::Declaration<'src>>,
    n: int,
    fuel: nat,
) -> Option<State<'src>>
    decreases fuel, n + 1,
{
    if n <= 0 || n > ds.len() {
        Some(st)
    } else {
        match analyze_decls(files, st, module, ds, n - 1, fuel) {
            Some(s) => analyze_decl(files, s, module, ds[n - 1], fuel),
            None => None,
        }
    }
}

/// The analysis of a whole module. Each module a `use` has to analyze first
/// takes one unit of `fuel`: modules that do not import each other in a
/// cycle never need more than there are modules.
pub open spec fn analyze_module<'src>(
    files: Map<Seq<char>, parser_ast::Program<'src>>,
    st: State<'src>,
    module: Seq<char>,
    fuel: nat,
) -> Option<State<'src>>
    decreases fuel, 0int,
{
    if fuel == 0 || !files.contains_key(module) {
        None
    } else {
        analyze_decls(
            files,
            st,
            module,
            files[module].declarations@,
            files[module].declarations@.len() as int,
            (fuel - 1) as nat,
        )
    }
}

/// The state an analysis starts from.
pub open spec fn initial_state<'src>() -> State<'src> {
    State { decls: Map::empty(), mapping: Map::empty(), errors: Seq::empty(), program: Seq::empty() }
}

/// The analysis of a program, starting at the module `main` of the package.
pub open spec fn analysis<'src>(files: Seq<(String, parser_ast::Program<'src>)>, package: Seq<char>) -> Option<State<'src>> {
    analyze_module(files_view(files), initial_state(), package + ".main"@, files.len())
}

/// Once the first `i` expressions are analyzed, a failure at the next one is
/// the outcome of the whole sequence.
proof fn lemma_exprs_prefix<'src>(es: Seq<parser_ast::Expr<'src>>, i: int, n: int, vars: Vars<'src>, ctx: Ctx<'src>)
    requires
        0 <= i < n <= es.len(),
        analyze_exprs(es, i, vars, ctx) is Done,
    ensures
        !(analyze_exprs(es, i + 1, vars, ctx) is Done) ==> analyze_exprs(es, n, vars, ctx)
            == analyze_exprs(es, i + 1, vars, ctx),
    decreases n,
{
    if n > i + 1 {
        lemma_exprs_prefix(es, i, n - 1, vars, ctx);
    }
}

proof fn lemma_else_ifs_prefix<'src>(ps: Seq<(parser_ast::Expr<'src>, parser_ast::Block<'src>)>, i: int, n: int, vars: Vars<'src>, ctx: Ctx<'src>)
    requires
        0 <= i < n <= ps.len(),
        analyze_else_ifs(ps, i, vars, ctx) is Done,
    ensures
        !(analyze_else_ifs(ps, i + 1, vars, ctx) is Done) ==> analyze_else_ifs(ps, n, vars, ctx)
            == analyze_else_ifs(ps, i + 1, vars, ctx),
    decreases n,
{
    if n > i + 1 {
        lemma_else_ifs_prefix(ps, i, n - 1, vars, ctx);
    }
}

proof fn lemma_stmts_prefix<'src>(ss: Seq<parser_ast::Statement<'src>>, i: int, n: int, vars: Vars<'src>, ctx: Ctx<'src>)
    requires
        0 <= i < n <= ss.len(),
        analyze_stmts(ss, i, vars, ctx) is Done,
    ensures
        !(analyze_stmts(ss, i + 1, vars, ctx) is Done) ==> analyze_stmts(ss, n, vars, ctx)
            == analyze_stmts(ss, i + 1, vars, ctx),
    decreases n,
{
    if n > i + 1 {
        lemma_stmts_prefix(ss, i, n - 1, vars, ctx);
    }
}

proof fn lemma_decls_prefix<'src>(
    files: Map<Seq<char>, parser_ast::Program<'src>>,
    st: State<'src>,
    module: Seq<char>,
    ds: Seq<parser_ast::Declaration<'src>>,
    i: int,
    n: int,
    fuel: nat,
)
    requires
        0 <= i <= n <= ds.len(),
        analyze_decls(files, st, module, ds, n, fuel) is Some,
    ensures
        analyze_decls(files, st, module, ds, i, fuel) is Some,
    decreases n,
{
    if n > i {
        lemma_decls_prefix(files, st, module, ds, i, n - 1, fuel);
    }
}

/// Whether the first `n` lowered expressions are right depends on them alone.
proof fn lemma_lowers_exprs_frame<'src>(
    os1: Seq<analyzer_ast::Expr<'src>>,
    os2: Seq<analyzer_ast::Expr<'src>>,
    es: Seq<parser_ast::Expr<'src>>,
    n: int,
    vars: Vars<'src>,
    ctx: Ctx<'src>,
)
    requires
        0 <= n <= os1.len(),
        n <= os2.len(),
        forall|j: int| 0 <= j < n ==> os1[j] == os2[j],
    ensures
        lowers_exprs(os1, es, n, vars, ctx) == lowers_exprs(os2, es, n, vars, ctx),
    decreases n,
{
    if n > 0 {
        lemma_lowers_exprs_frame(os1, os2, es, n - 1, vars, ctx);
    }
}

proof fn lemma_lowers_exprs_push<'src>(
    os: Seq<analyzer_ast::Expr<'src>>,
    o: analyzer_ast::Expr<'src>,
    es: Seq<parser_ast::Expr<'src>>,
    i: int,
    vars: Vars<'src>,
    ctx: Ctx<'src>,
)
    requires
        0 <= i < es.len(),
        os.len() == i,
        lowers_exprs(os, es, i, vars, ctx),
        lowers_expr(o, es[i], exprs_vars(es, i, vars, ctx), ctx),
    ensures
        lowers_exprs(os.push(o), es, i + 1, vars, ctx),
{
    lemma_lowers_exprs_frame(os, os.push(o), es, i, vars, ctx);
}

proof fn lemma_lowers_else_ifs_frame<'src>(
    os1: Seq<(analyzer_ast::Expr<'src>, analyzer_ast::Block<'src>)>,
    os2: Seq<(analyzer_ast::Expr<'src>, analyzer_ast::Block<'src>)>,
    ps: Seq<(parser_ast::Expr<'src>, parser_ast::Block<'src>)>,
    n: int,
    vars: Vars<'src>,
    ctx: Ctx<'src>,
)
    requires
        0 <= n <= os1.len(),
        n <= os2.len(),
        forall|j: int| 0 <= j < n ==> os1[j] == os2[j],
    ensures
        lowers_else_ifs(os1, ps, n, vars, ctx) == lowers_else_ifs(os2, ps, n, vars, ctx),
    decreases n,
{
    if n > 0 {
        lemma_lowers_else_ifs_frame(os1, os2, ps, n - 1, vars, ctx);
    }
}

proof fn lemma_lowers_stmts_frame<'src>(
    os1: Seq<analyzer_ast::Statement<'src>>,
    os2: Seq<analyzer_ast::Statement<'src>>,
    ss: Seq<parser_ast::Statement<'src>>,
    n: int,
    vars: Vars<'src>,
    ctx: Ctx<'src>,
)
    requires
        0 <= n <= os1.len(),
        n <= os2.len(),
        forall|j: int| 0 <= j < n ==> os1[j] == os2[j],
    ensures
        lowers_stmts(os1, ss, n, vars, ctx) == lowers_stmts(os2, ss, n, vars, ctx),
    decreases n,
{
    if n > 0 {
        lemma_lowers_stmts_frame(os1, os2, ss, n - 1, vars, ctx);
    }
}

/// The type a lowered statement gives its block is the type the analysis found.
proof fn lemma_stmt_type<'src>(out: analyzer_ast::Statement<'src>, s: parser_ast::Statement<'src>, vars: Vars<'src>, ctx: Ctx<'src>)
    requires
        lowers_stmt(out, s, vars, ctx),
        analyze_stmt(s, vars, ctx) is Done,
    ensures
        analyze_stmt(s, vars, ctx) matches Outcome::Done((t, _)) && stmt_type(out) == t,
{
}

/// The analyzed type for a written one.
fn visit_type<'src>(ty: &parser_ast::Type<'src>) -> (t: analyzer_ast::Type<'src>)
    ensures
        t.span == ty.span,
        t.kind == spec_visit_type(ty.kind),
{
    let kind = match &ty.kind {
        parser_ast::TypeKind::Ident(ident) => TypeKind::Ident(analyzer_ast::Ident::from_parser(*ident)),
        parser_ast::TypeKind::Int => TypeKind::Int,
        parser_ast::TypeKind::Float => TypeKind::Float,
        parser_ast::TypeKind::String => TypeKind::String,
        parser_ast::TypeKind::Bool => TypeKind::Bool,
        parser_ast::TypeKind::Void => TypeKind::Void,
    };
    analyzer_ast::Type { span: ty.span, kind }
}

/// Whether two types line up.
fn validate_types_align<'src>(ty1: &TypeKind<'src>, ty2: &TypeKind<'src>) -> (r: bool)
    ensures
        r == types_align(*ty1, *ty2),
{
    match (ty1, ty2) {
        (TypeKind::Int, TypeKind::Int) | (TypeKind::Float, TypeKind::Float) | (
            TypeKind::String,
            TypeKind::String,
        ) | (TypeKind::Bool, TypeKind::Bool) | (TypeKind::Void, TypeKind::Void) => true,
        (TypeKind::Ident(ident1), TypeKind::Ident(ident2)) => str_eq(ident1.inner, ident2.inner),
        _ => false,
    }
}

/// The article and the type, as messages quote a type.
fn quote_type<'src>(t: &TypeKind<'src>) -> (r: String)
    requires
        type_text(*t).len() > 0,
    ensures
        r@ == quoted(*t),
{
    let text = t.to_string();
    let a = a_or_an(text.as_str());
    concat(concat3(a.as_str(), " '", text.as_str()).as_str(), "'")
}

/// The message for operands of a binary operator whose types do not line up.
fn mismatch_text<'src>(op: parser_ast::BinaryOp, l: &TypeKind<'src>, r: &TypeKind<'src>) -> (m: String)
    requires
        type_text(*l).len() > 0,
        type_text(*r).len() > 0,
    ensures
        m@ == mismatch_message(op, *l, *r),
{
    let ql = quote_type(l);
    let qr = quote_type(r);
    match op {
        parser_ast::BinaryOp::Add => concat("cannot add ", concat3(ql.as_str(), " to ", qr.as_str()).as_str()),
        parser_ast::BinaryOp::Sub => concat(
            "cannot subtract ",
            concat3(qr.as_str(), " from ", ql.as_str()).as_str(),
        ),
        parser_ast::BinaryOp::Mul => concat(
            "cannot multiply ",
            concat3(ql.as_str(), " with ", qr.as_str()).as_str(),
        ),
        parser_ast::BinaryOp::Div => concat(
            "cannot divide ",
            concat3(ql.as_str(), " with ", qr.as_str()).as_str(),
        ),
        parser_ast::BinaryOp::Mod => concat(
            "cannot take the remainder of ",
            concat3(ql.as_str(), " with ", qr.as_str()).as_str(),
        ),
        parser_ast::BinaryOp::Exp => concat(
            "cannot take exponentiate ",
            concat3(ql.as_str(), " with ", qr.as_str()).as_str(),
        ),
        _ => concat("cannot compare ", concat3(ql.as_str(), " with ", qr.as_str()).as_str()),
    }
}

/// The first `n` names of a path, joined by dots.
fn join_idents<'src>(ids: &Vec<parser_ast::Ident<'src>>, n: usize) -> (r: String)
    requires
        n <= ids@.len(),
    ensures
        r@ == join_dots(ids@, n as int),
{
    let mut s = String::new();
    let mut i: usize = 0;
    while i < n
        invariant
            0 <= i <= n <= ids@.len(),
            s@ == join_dots(ids@, i as int),
        decreases n - i,
    {
        if i > 0 {
            s.append(".");
        }
        s.append(ids[i].inner);
        i = i + 1;
    }
    s
}

/// Whether the module name starts with `std.`.
fn in_std(module: &str) -> (r: bool)
    ensures
        r == (module@.len() >= 4 && module@.subrange(0, 4) == "std."@),
{
    proof {
        reveal_strlit("std.");
    }
    if module.unicode_len() < 4 {
        return false;
    }
    let r = module.get_char(0) == 's' && module.get_char(1) == 't' && module.get_char(2) == 'd'
        && module.get_char(3) == '.';
    proof {
        if r {
            assert(module@.subrange(0, 4) =~= "std."@);
        } else if module@.subrange(0, 4) == "std."@ {
            assert(module@.subrange(0, 4)[0] == 's');
            assert(module@.subrange(0, 4)[1] == 't');
            assert(module@.subrange(0, 4)[2] == 'd');
            assert(module@.subrange(0, 4)[3] == '.');
        }
    }
    r
}

struct Analyzer<'a, 'src> {
    files: &'a Vec<(String, parser_ast::Program<'src>)>,
    declarations: TypecheckedDeclarations<'src>,
    // Complete program after analysis
    program: analyzer_ast::Program<'src>,
    // For each declaration of the program, the function it was made from and its context
    lowered: Ghost<Seq<(parser_ast::Function<'src>, Ctx<'src>)>>,
    errors: Vec<Diagnostic<'src>>,
    variables: Vec<(&'src str, Variable<'src>)>,
    current_module_name: String,
    context_name_mapping: ContextNameMapping,
}

impl<'a, 'src> Analyzer<'a, 'src> {
    spec fn ctx(&self) -> Ctx<'src> {
        Ctx {
            module: self.current_module_name@,
            decls: decls_view(self.declarations.0@),
            mapping: mapping_view(self.context_name_mapping.0@),
        }
    }

    spec fn vars(&self) -> Vars<'src> {
        vars_view(self.variables@)
    }

    spec fn files_map(&self) -> Map<Seq<char>, parser_ast::Program<'src>> {
        files_view(self.files@)
    }

    spec fn state(&self) -> State<'src> {
        State {
            decls: decls_view(self.declarations.0@),
            mapping: mapping_view(self.context_name_mapping.0@),
            errors: self.errors@.map_values(|d: Diagnostic<'src>| d@),
            program: self.lowered@,
        }
    }

    /// Every declaration of the program is what the analysis made of the
    /// function recorded for it.
    spec fn wf(&self) -> bool {
        &&& self.program.declarations@.len() == self.lowered@.len()
        &&& forall|i: int|
            0 <= i < self.lowered@.len() ==> lowers_decl(
                #[trigger] self.program.declarations@[i],
                self.lowered@[i],
            )
    }

    /// Everything but the variables in scope.
    spec fn frozen(&self) -> (
        Seq<(String, parser_ast::Program<'src>)>,
        Seq<(String, String, Signature<'src>)>,
        Seq<(String, String, String, String, String)>,
        Seq<Diagnostic<'src>>,
        Seq<analyzer_ast::Declaration<'src>>,
        Seq<(parser_ast::Function<'src>, Ctx<'src>)>,
        Seq<char>,
    ) {
        (
            self.files@,
            self.declarations.0@,
            self.context_name_mapping.0@,
            self.errors@,
            self.program.declarations@,
            self.lowered@,
            self.current_module_name@,
        )
    }

    #[verifier::loop_isolation(false)]
    fn visit_expr(&mut self, expr: &parser_ast::Expr<'src>) -> (r: Result<analyzer_ast::Expr<'src>, Diagnostic<'src>>)
        requires
            !(analyze_expr(*expr, old(self).vars(), old(self).ctx()) is Stuck),
        ensures
            final(self).frozen() == old(self).frozen(),
            match analyze_expr(*expr, old(self).vars(), old(self).ctx()) {
                Outcome::Done((t, v)) => r matches Ok(out) && !(out is StructInstance) && expr_ty(out)
                    == t && final(self).vars() == v && lowers_expr(out, *expr, old(self).vars(), old(self).ctx()),
                Outcome::Failed(d) => r matches Err(e) && e@ == d,
                Outcome::Stuck => true,
            },
            r is Err && block_free(*expr) ==> final(self).vars() == old(self).vars(),
        decreases expr, 0int,
    {
        let ghost vars0 = self.vars();
        let ghost ctx = self.ctx();
        match &expr.kind {
            parser_ast::ExprKind::IntLiteral(i) => Ok(analyzer_ast::Expr::IntLiteral(*i)),
            parser_ast::ExprKind::FloatLiteral(f) => Ok(analyzer_ast::Expr::FloatLiteral(*f)),
            parser_ast::ExprKind::BoolLiteral(_) => vstd::pervasive::unreached(),
            parser_ast::ExprKind::StringLiteral(s) => Ok(analyzer_ast::Expr::StringLiteral(*s)),
            parser_ast::ExprKind::StringInterpolation(si) => {
                let mut parts: Vec<analyzer_ast::Expr<'src>> = Vec::new();
                let mut i: usize = 0;
                while i < si.len()
                    invariant
                        0 <= i <= si@.len(),
                        self.frozen() == old(self).frozen(),
                        self.ctx() == ctx,
                        analyze_exprs(si@, i as int, vars0, ctx) == Outcome::<'src, Vars<'src>>::Done(self.vars()),
                        !(analyze_exprs(si@, si@.len() as int, vars0, ctx) is Stuck),
                        parts@.len() == i,
                        lowers_exprs(parts@, si@, i as int, vars0, ctx),
                        block_free(*expr) ==> all_block_free(si@, si@.len() as int) && self.vars() == vars0,
                    decreases si@.len() - i,
                {
                    proof {
                        lemma_exprs_prefix(si@, i as int, si@.len() as int, vars0, ctx);
                        if block_free(*expr) {
                            lemma_all_block_free_prefix(si@, si@.len() as int, i as int);
                            lemma_all_block_free_prefix(si@, si@.len() as int, i + 1);
                            lemma_all_block_free_keeps_vars(si@, i + 1, vars0, ctx);
                        }
                    }
                    let part = match self.visit_expr(&si[i]) {
                        Ok(part) => part,
                        Err(e) => return Err(e),
                    };
                    proof {
                        lemma_lowers_exprs_push(parts@, part, si@, i as int, vars0, ctx);
                    }
                    parts.push(part);
                    i = i + 1;
                }
                Ok(analyzer_ast::Expr::StringInterpolation(parts))
            },
            parser_ast::ExprKind::Ident(i) => {
                let ident = analyzer_ast::Ident::from_parser(*i);
                match lookup_var(&self.variables, ident.inner) {
                    Some(var) => Ok(analyzer_ast::Expr::Ident { ident, ty: var.type_kind }),
                    None => vstd::pervasive::unreached(),
                }
            },
            parser_ast::ExprKind::Binary { op, left, right } => {
                proof {
                    if block_free(*expr) {
                        law_block_free_keeps_vars(**left, vars0, ctx);
                    }
                }
                let left_expr = match self.visit_expr(left) {
                    Ok(e) => e,
                    Err(e) => return Err(e),
                };
                proof {
                    if block_free(*expr) {
                        law_block_free_keeps_vars(**right, vars0, ctx);
                    }
                }
                let right_expr = match self.visit_expr(right) {
                    Ok(e) => e,
                    Err(e) => return Err(e),
                };
                let left_ty = left_expr.ty();
                let right_ty = right_expr.ty();
                let logical = matches!(op, parser_ast::BinaryOp::And | parser_ast::BinaryOp::Or);
                if logical && !left_ty.is_bool() && !right_ty.is_bool() {
                    return Err(
                        Diagnostic::error(
                            expr.span,
                            "Only boolean expression allowed on either side of 'and' or 'or'",
                        ),
                    );
                }
                if !validate_types_align(&left_ty, &right_ty) {
                    if logical {
                        vstd::pervasive::unreached()
                    } else {
                        let message = mismatch_text(*op, &left_ty, &right_ty);
                        let left_label = concat("This is ", quote_type(&left_ty).as_str());
                        let right_label = concat("This is ", quote_type(&right_ty).as_str());
                        return Err(
                            Diagnostic::error(expr.span, message.as_str()).with_error_label(
                                left.span,
                                left_label.as_str(),
                            ).with_error_label(right.span, right_label.as_str()),
                        );
                    }
                } else {
                    let comparison = matches!(
                        op,
                        parser_ast::BinaryOp::Eq | parser_ast::BinaryOp::Ne | parser_ast::BinaryOp::Lt
                            | parser_ast::BinaryOp::LtEq | parser_ast::BinaryOp::Gt
                            | parser_ast::BinaryOp::GtEq
                    );
                    let ty = if comparison {
                        TypeKind::Bool
                    } else {
                        left_ty
                    };
                    Ok(
                        analyzer_ast::Expr::Binary {
                            op: analyzer_ast::BinaryOp::from_parser(*op),
                            ty,
                            left: Box::new(left_expr),
                            right: Box::new(right_expr),
                        },
                    )
                }
            },
            parser_ast::ExprKind::Call(call) => match &call.callee.kind {
                parser_ast::ExprKind::Ident(ident) => {
                    let target: (Signature<'src>, String) = match self.context_name_mapping.get(
                        self.current_module_name.as_str(),
                        ident.inner,
                    ) {
                        Some((reference, module, name)) => match self.declarations.get(
                            module.as_str(),
                            name.as_str(),
                        ) {
                            Some(sig) => (sig, String::from_str(reference.as_str())),
                            None => vstd::pervasive::unreached(),
                        },
                        None => match self.declarations.get(
                            self.current_module_name.as_str(),
                            ident.inner,
                        ) {
                            Some(sig) => (
                                sig,
                                concat3(self.current_module_name.as_str(), ".", ident.inner),
                            ),
                            None => {
                                let message = concat3("Couldn't find '", ident.inner, "'");
                                return Err(Diagnostic::error(call.callee.span, message.as_str()));
                            },
                        },
                    };
                    let (func, callee) = target;
                    if func.vis == Vis::Private {
                        return Err(
                            Diagnostic::error(call.callee.span, "Private function").with_error_label(
                                call.callee.span,
                                "This function is private",
                            ).with_info_label(func.span, "Function defined here").with_help(
                                "make the function `internal` or `public` to use it",
                            ),
                        );
                    }
                    let mut args: Vec<analyzer_ast::Expr<'src>> = Vec::new();
                    let mut i: usize = 0;
                    while i < call.args.len()
                        invariant
                            0 <= i <= call.args@.len(),
                            self.frozen() == old(self).frozen(),
                            self.ctx() == ctx,
                            analyze_exprs(call.args@, i as int, vars0, ctx) == Outcome::<'src, Vars<'src>>::Done(self.vars()),
                            analyze_exprs(call.args@, call.args@.len() as int, vars0, ctx) is Done,
                            args@.len() == i,
                            lowers_exprs(args@, call.args@, i as int, vars0, ctx),
                        decreases call.args@.len() - i,
                    {
                        proof {
                            lemma_exprs_prefix(call.args@, i as int, call.args@.len() as int, vars0, ctx);
                        }
                        let arg = match self.visit_expr(&call.args[i]) {
                            Ok(arg) => arg,
                            Err(_) => vstd::pervasive::unreached(),
                        };
                        proof {
                            lemma_lowers_exprs_push(args@, arg, call.args@, i as int, vars0, ctx);
                        }
                        args.push(arg);
                        i = i + 1;
                    }
                    Ok(
                        analyzer_ast::Expr::Call {
                            ty: func.ret_ty,
                            call: analyzer_ast::Call { callee, args },
                        },
                    )
                },
                _ => vstd::pervasive::unreached(),
            },
            parser_ast::ExprKind::If { cond, then, else_if_blocks, else_block } => {
                let t_cond = match self.visit_expr(cond) {
                    Ok(e) => e,
                    Err(e) => return Err(e),
                };
                if !t_cond.ty().is_bool() {
                    return Err(
                        Diagnostic::error(
                            cond.span,
                            "Only boolean expressions allowed in if checks",
                        ).with_error_label(cond.span, "here"),
                    );
                }
                let ghost v1 = self.vars();
                let t_then = match self.visit_block(then) {
                    Ok(b) => b,
                    Err(e) => return Err(e),
                };
                let ghost v2 = self.vars();
                let mut t_else_if_blocks: Vec<(analyzer_ast::Expr<'src>, analyzer_ast::Block<'src>)> =
                    Vec::new();
                let mut i: usize = 0;
                while i < else_if_blocks.len()
                    invariant
                        0 <= i <= else_if_blocks@.len(),
                        self.frozen() == old(self).frozen(),
                        self.ctx() == ctx,
                        analyze_else_ifs(else_if_blocks@, i as int, v2, ctx) == Outcome::<'src, Vars<'src>>::Done(self.vars()),
                        !(analyze_else_ifs(else_if_blocks@, else_if_blocks@.len() as int, v2, ctx) is Stuck),
                        t_else_if_blocks@.len() == i,
                        lowers_else_ifs(t_else_if_blocks@, else_if_blocks@, i as int, v2, ctx),
                    decreases else_if_blocks@.len() - i,
                {
                    proof {
                        lemma_else_ifs_prefix(else_if_blocks@, i as int, else_if_blocks@.len() as int, v2, ctx);
                    }
                    let pair = &else_if_blocks[i];
                    let c = match self.visit_expr(&pair.0) {
                        Ok(e) => e,
                        Err(e) => return Err(e),
                    };
                    let b = match self.visit_block(&pair.1) {
                        Ok(b) => b,
                        Err(e) => return Err(e),
                    };
                    proof {
                        lemma_lowers_else_ifs_frame(
                            t_else_if_blocks@,
                            t_else_if_blocks@.push((c, b)),
                            else_if_blocks@,
                            i as int,
                            v2,
                            ctx,
                        );
                    }
                    t_else_if_blocks.push((c, b));
                    i = i + 1;
                }
                let t_else_block = match else_block {
                    Some(b) => match self.visit_block(b) {
                        Ok(b) => Some(b),
                        Err(e) => return Err(e),
                    },
                    None => None,
                };
                Ok(
                    analyzer_ast::Expr::If {
                        ty: t_then.ty,
                        cond: Box::new(t_cond),
                        then: t_then,
                        else_if_blocks: t_else_if_blocks,
                        else_block: t_else_block,
                    },
                )
            },
            _ => vstd::pervasive::unreached(),
        }
    }

    #[verifier::loop_isolation(false)]
    fn visit_block(&mut self, block: &parser_ast::Block<'src>) -> (r: Result<analyzer_ast::Block<'src>, Diagnostic<'src>>)
        requires
            !(analyze_block(*block, old(self).vars(), old(self).ctx()) is Stuck),
        ensures
            final(self).frozen() == old(self).frozen(),
            match analyze_block(*block, old(self).vars(), old(self).ctx()) {
                Outcome::Done((t, v)) => r matches Ok(out) && out.ty == t && final(self).vars() == v
                    && lowers_block(out, *block, old(self).vars(), old(self).ctx()),
                Outcome::Failed(d) => r matches Err(e) && e@ == d,
                Outcome::Stuck => true,
            },
        decreases block, 0int,
    {
        let ghost vars0 = self.vars();
        let ghost ctx = self.ctx();
        let ghost ss = block.statements@;
        let mut statements: Vec<analyzer_ast::Statement<'src>> = Vec::new();
        let mut i: usize = 0;
        while i < block.statements.len()
            invariant
                0 <= i <= ss.len(),
                ss == block.statements@,
                self.frozen() == old(self).frozen(),
                self.ctx() == ctx,
                analyze_stmts(ss, i as int, vars0, ctx) matches Outcome::Done((_, v)) && v == self.vars(),
                !(analyze_stmts(ss, ss.len() as int, vars0, ctx) is Stuck),
                statements@.len() == i,
                lowers_stmts(statements@, ss, i as int, vars0, ctx),
                i > 0 ==> (analyze_stmts(ss, i as int, vars0, ctx) matches Outcome::Done((t, _)) && t
                    == stmt_type(statements@.last())),
                i > 0 ==> (statements@.last() matches analyzer_ast::Statement::Expr(e) ==> !(
                e is StructInstance)),
            decreases ss.len() - i,
        {
            proof {
                lemma_stmts_prefix(ss, i as int, ss.len() as int, vars0, ctx);
            }
            let s = match self.visit_statement(&block.statements[i]) {
                Ok(s) => s,
                Err(e) => return Err(e),
            };
            proof {
                lemma_stmt_type(s, ss[i as int], stmts_vars(ss, i as int, vars0, ctx), ctx);
                lemma_lowers_stmts_frame(statements@, statements@.push(s), ss, i as int, vars0, ctx);
            }
            statements.push(s);
            i = i + 1;
        }
        let n = statements.len();
        let ty = if n == 0 {
            TypeKind::Void
        } else {
            match &statements[n - 1] {
                analyzer_ast::Statement::Return { ty, .. } => *ty,
                analyzer_ast::Statement::Expr(e) => e.ty(),
                _ => TypeKind::Void,
            }
        };
        Ok(analyzer_ast::Block { span: block.span, statements, ty })
    }

    fn visit_statement(&mut self, statement: &parser_ast::Statement<'src>) -> (r: Result<
        analyzer_ast::Statement<'src>,
        Diagnostic<'src>,
    >)
        requires
            !(analyze_stmt(*statement, old(self).vars(), old(self).ctx()) is Stuck),
        ensures
            final(self).frozen() == old(self).frozen(),
            match analyze_stmt(*statement, old(self).vars(), old(self).ctx()) {
                Outcome::Done((_, v)) => r matches Ok(out) && final(self).vars() == v && lowers_stmt(
                    out,
                    *statement,
                    old(self).vars(),
                    old(self).ctx(),
                ) && (out matches analyzer_ast::Statement::Expr(e) ==> !(e is StructInstance)),
                Outcome::Failed(d) => r matches Err(e) && e@ == d,
                Outcome::Stuck => true,
            },
            r is Err && stmt_block_free(*statement) ==> final(self).vars() == old(self).vars(),
        decreases statement, 2int,
    {
        let ghost vars0 = self.vars();
        let ghost ctx0 = self.ctx();
        match statement {
            parser_ast::Statement::Let { name, ty: _, expr, mutable, span } => {
                let e = match self.visit_expr(expr) {
                    Ok(e) => e,
                    Err(e) => return Err(e),
                };
                let name = analyzer_ast::Ident::from_parser(*name);
                let ty = e.ty();
                insert_var(
                    &mut self.variables,
                    name.inner,
                    Variable { type_kind: ty, mutable: *mutable, name_span: name.span },
                );
                Ok(analyzer_ast::Statement::Let { name, ty, expr: e, mutable: *mutable, span: *span })
            },
            parser_ast::Statement::Assign { name, expr, span } => {
                proof {
                    if block_free(*expr) {
                        law_block_free_keeps_vars(*expr, vars0, ctx0);
                    }
                }
                let e = match self.visit_expr(expr) {
                    Ok(e) => e,
                    Err(e) => return Err(e),
                };
                let name = analyzer_ast::Ident::from_parser(*name);
                let ty = e.ty();
                let expected_var = match lookup_var(&self.variables, name.inner) {
                    Some(v) => v,
                    None => {
                        let message = concat3(
                            "A variable with the name '",
                            name.inner,
                            "' does not exist",
                        );
                        return Err(
                            Diagnostic::error(*span, message.as_str()).with_error_label(*span, "here"),
                        );
                    },
                };
                if !expected_var.mutable {
                    return Err(
                        Diagnostic::error(*span, "Variable is not mutable").with_error_label(
                            expected_var.name_span,
                            "Variable defined here. Consider making it mutable",
                        ),
                    );
                }
                if !expected_var.type_kind.same_as(&ty) {
                    let head = concat3(
                        "This variable has type '",
                        expected_var.type_kind.to_string().as_str(),
                        "', but is being assigned a(n) '",
                    );
                    let label = concat3(head.as_str(), ty.to_string().as_str(), "'");
                    return Err(
                        Diagnostic::error(*span, "Mismatched types").with_error_label(
                            name.span,
                            label.as_str(),
                        ),
                    );
                }
                Ok(analyzer_ast::Statement::Assign { name, expr: e, span: *span })
            },
            parser_ast::Statement::Return { span, expr } => match expr {
                None => Ok(analyzer_ast::Statement::Return { span: *span, expr: None, ty: TypeKind::Void }),
                Some(expr) => {
                    let e = match self.visit_expr(expr) {
                        Ok(e) => e,
                        Err(e) => return Err(e),
                    };
                    Ok(analyzer_ast::Statement::Return { span: *span, ty: e.ty(), expr: Some(e) })
                },
            },
            parser_ast::Statement::ForLoop { span, cond, block } => {
                let cond = match cond {
                    Some(cond) => {
                        let c = match self.visit_expr(cond) {
                            Ok(e) => e,
                            Err(e) => return Err(e),
                        };
                        if !c.ty().is_bool() {
                            return Err(
                                Diagnostic::error(
                                    *span,
                                    "Expected the condition to be a boolean",
                                ).with_error_label(*span, "here"),
                            );
                        }
                        Some(c)
                    },
                    None => None,
                };
                let block = match self.visit_block(block) {
                    Ok(b) => b,
                    Err(e) => return Err(e),
                };
                Ok(analyzer_ast::Statement::ForLoop { span: *span, cond, block })
            },
            parser_ast::Statement::Expr(expr) => match self.visit_expr(expr) {
                Ok(e) => Ok(analyzer_ast::Statement::Expr(e)),
                Err(e) => Err(e),
            },
            _ => vstd::pervasive::unreached(),
        }
    }
}


/// The function a declaration holds.
spec fn decl_function<'src>(d: parser_ast::Declaration<'src>) -> parser_ast::Function<'src> {
    match d {
        parser_ast::Declaration::Function(f) => f,
        _ => arbitrary(),
    }
}

impl<'a, 'src> Analyzer<'a, 'src> {
    /// The program of a module.
    fn get_file(&self, name: &str) -> (r: Option<&'a parser_ast::Program<'src>>)
        ensures
            self.files_map().contains_key(name@) ==> (r matches Some(p) && *p == self.files_map()[name@]),
            !self.files_map().contains_key(name@) ==> r is None,
    {
        let files: &'a Vec<(String, parser_ast::Program<'src>)> = self.files;
        let mut i = files.len();
        assert(files@.subrange(0, i as int) =~= files@);
        while i > 0
            invariant
                0 <= i <= files@.len(),
                files@ == self.files@,
                files_view(files@).contains_key(name@) <==> files_view(files@.subrange(0, i as int)).contains_key(name@),
                files_view(files@).contains_key(name@) ==> files_view(files@)[name@] == files_view(
                    files@.subrange(0, i as int),
                )[name@],
            decreases i,
        {
            let ghost prefix = files@.subrange(0, i as int);
            proof {
                assert(prefix.drop_last() =~= files@.subrange(0, i - 1));
            }
            if str_eq(files[i - 1].0.as_str(), name) {
                return Some(&files[i - 1].1);
            }
            i = i - 1;
        }
        None
    }

    /// Whether the program has a module of that name.
    fn has_file(&self, name: &str) -> (r: bool)
        ensures
            r == self.files_map().contains_key(name@),
    {
        self.get_file(name).is_some()
    }

    fn visit_function(&mut self, function: &parser_ast::Function<'src>) -> (r: Result<
        analyzer_ast::Function<'src>,
        Diagnostic<'src>,
    >)
        requires
            !(analyze_function(*function, old(self).ctx()) is Stuck),
        ensures
            final(self).frozen() == old(self).frozen(),
            match analyze_function(*function, old(self).ctx()) {
                Outcome::Done(sig) => r matches Ok(f) && lowers_function(f, *function, old(self).ctx())
                    && signature_of(f) == sig,
                Outcome::Failed(d) => r matches Err(e) && e@ == d,
                Outcome::Stuck => true,
            },
    {
        let ghost ctx = self.ctx();
        let ghost ps = function.params@;
        // The variables of an earlier function are out of scope
        self.variables = Vec::new();
        let mut params: Vec<analyzer_ast::Param<'src>> = Vec::new();
        let mut i: usize = 0;
        while i < function.params.len()
            invariant
                0 <= i <= ps.len(),
                ps == function.params@,
                self.frozen() == old(self).frozen(),
                self.ctx() == ctx,
                self.vars() == params_vars(ps, i as int),
                params@.len() == i,
                forall|j: int| 0 <= j < i ==> lowers_param(#[trigger] params@[j], ps[j]),
            decreases ps.len() - i,
        {
            let param = &function.params[i];
            let ty = visit_type(&param.ty);
            insert_var(
                &mut self.variables,
                param.name.inner,
                Variable { type_kind: ty.kind, mutable: false, name_span: param.span },
            );
            params.push(
                analyzer_ast::Param {
                    span: param.span,
                    name: analyzer_ast::Ident::from_parser(param.name),
                    ty,
                    default: None,
                },
            );
            i = i + 1;
        }
        if in_std(self.current_module_name.as_str()) && str_eq(function.name.inner, "print") {
            return Ok(
                analyzer_ast::Function {
                    span: function.span,
                    name: concat3(self.current_module_name.as_str(), ".", function.name.inner),
                    params,
                    ret_ty: TypeKind::Void,
                    body: analyzer_ast::Block {
                        span: function.body.span,
                        statements: Vec::new(),
                        ty: TypeKind::Void,
                    },
                    vis: Vis::Public,
                },
            );
        }
        let body = match self.visit_block(&function.body) {
            Ok(b) => b,
            Err(e) => return Err(e),
        };
        let defined_ret_ty = visit_type(&function.ret_ty);
        if !validate_types_align(&defined_ret_ty.kind, &body.ty) {
            let n = function.body.statements.len();
            if n == 0 {
                vstd::pervasive::unreached()
            } else {
                let span = *function.body.statements[n - 1].span();
                let declared = defined_ret_ty.kind.to_string();
                let info = concat("Return type defined as ", declared.as_str());
                let head = concat3("Mismatched types. Expected '", declared.as_str(), "' found '");
                let label = concat3(head.as_str(), body.ty.to_string().as_str(), "'");
                return Err(
                    Diagnostic::error(
                        function.ret_ty.span,
                        "Mismatched return type of function",
                    ).with_info_label(function.ret_ty.span, info.as_str()).with_error_label(
                        span,
                        label.as_str(),
                    ),
                );
            }
        } else {
            let name = if str_eq(function.name.inner, "main") {
                String::from_str("main")
            } else {
                concat3(self.current_module_name.as_str(), ".", function.name.inner)
            };
            Ok(
                analyzer_ast::Function {
                    span: function.span,
                    name,
                    params,
                    ret_ty: body.ty,
                    body,
                    vis: Vis::from_parser(function.vis),
                },
            )
        }
    }

    fn visit_declaration(&mut self, declaration: &parser_ast::Declaration<'src>, fuel: usize) -> (r: Result<
        Option<analyzer_ast::Declaration<'src>>,
        Diagnostic<'src>,
    >)
        requires
            old(self).wf(),
            analyze_decl(
                old(self).files_map(),
                old(self).state(),
                old(self).current_module_name@,
                *declaration,
                fuel as nat,
            ) is Some,
        ensures
            final(self).wf(),
            final(self).files@ == old(self).files@,
            final(self).current_module_name@ == old(self).current_module_name@,
            ({
                let st = old(self).state();
                let m = old(self).current_module_name@;
                let after = analyze_decl(old(self).files_map(), st, m, *declaration, fuel as nat);
                match r {
                    Ok(Some(out)) => declaration is Function && lowers_decl(
                        out,
                        (decl_function(*declaration), ctx_of(st, m)),
                    ) && after == Some(
                        State {
                            program: final(self).state().program.push(
                                (decl_function(*declaration), ctx_of(st, m)),
                            ),
                            ..final(self).state()
                        },
                    ),
                    Ok(None) => after == Some(final(self).state()),
                    Err(e) => after == Some(
                        State { errors: final(self).state().errors.push(e@), ..final(self).state() },
                    ),
                }
            }),
        decreases fuel, 1int,
    {
        let ghost st = self.state();
        match declaration {
            parser_ast::Declaration::Function(function) => {
                let f = match self.visit_function(function) {
                    Ok(f) => f,
                    Err(e) => return Err(e),
                };
                let sig = Signature { vis: f.vis, ret_ty: f.ret_ty, span: f.span };
                self.declarations.insert(self.current_module_name.as_str(), function.name.inner, sig);
                Ok(Some(analyzer_ast::Declaration::Function(f)))
            },
            parser_ast::Declaration::Use(use_) => {
                let n = use_.import.len();
                if n == 0 {
                    vstd::pervasive::unreached()
                } else {
                    let last = use_.import[n - 1].inner;
                    let module = join_idents(&use_.import, n - 1);
                    let module_name = if self.has_file(module.as_str()) {
                        String::from_str(module.as_str())
                    } else {
                        concat3(module.as_str(), ".", last)
                    };
                    if !self.has_file(module_name.as_str()) {
                        let message = concat("Unknown module ", module_name.as_str());
                        return Err(Diagnostic::error(use_.span, message.as_str()));
                    }
                    if self.declarations.get(module_name.as_str(), last).is_none() {
                        self.analyzer(module_name.as_str(), fuel);
                    }
                    if self.declarations.get(module_name.as_str(), last).is_none() {
                        vstd::pervasive::unreached()
                    } else {
                        let reference = join_idents(&use_.import, n);
                        self.context_name_mapping.insert(
                            self.current_module_name.as_str(),
                            last,
                            reference,
                            module,
                            String::from_str(last),
                        );
                        Ok(None)
                    }
                }
            },
            _ => vstd::pervasive::unreached(),
        }
    }

    fn analyzer_inner(&mut self, program: &parser_ast::Program<'src>, fuel: usize)
        requires
            old(self).wf(),
            analyze_decls(
                old(self).files_map(),
                old(self).state(),
                old(self).current_module_name@,
                program.declarations@,
                program.declarations@.len() as int,
                fuel as nat,
            ) is Some,
        ensures
            final(self).wf(),
            final(self).files@ == old(self).files@,
            final(self).current_module_name@ == old(self).current_module_name@,
            analyze_decls(
                old(self).files_map(),
                old(self).state(),
                old(self).current_module_name@,
                program.declarations@,
                program.declarations@.len() as int,
                fuel as nat,
            ) == Some(final(self).state()),
        decreases fuel, 2int,
    {
        let ghost st0 = self.state();
        let ghost m = self.current_module_name@;
        let ghost fm = self.files_map();
        let ghost ds = program.declarations@;
        let mut i: usize = 0;
        while i < program.declarations.len()
            invariant
                0 <= i <= ds.len(),
                ds == program.declarations@,
                self.wf(),
                self.files@ == old(self).files@,
                self.current_module_name@ == m,
                fm == self.files_map(),
                analyze_decls(fm, st0, m, ds, i as int, fuel as nat) == Some(self.state()),
                analyze_decls(fm, st0, m, ds, ds.len() as int, fuel as nat) is Some,
            decreases ds.len() - i,
        {
            proof {
                lemma_decls_prefix(fm, st0, m, ds, i + 1, ds.len() as int, fuel as nat);
            }
            let ghost before = self.state();
            match self.visit_declaration(&program.declarations[i], fuel) {
                Ok(Some(decl)) => {
                    let ghost entry = (decl_function(ds[i as int]), ctx_of(before, m));
                    self.program.declarations.push(decl);
                    self.lowered = Ghost(self.lowered@.push(entry));
                    proof {
                        assert forall|j: int| 0 <= j < self.lowered@.len() implies lowers_decl(
                            #[trigger] self.program.declarations@[j],
                            self.lowered@[j],
                        ) by {}
                    }
                },
                Ok(None) => {},
                Err(e) => {
                    let ghost old_errors = self.errors@;
                    self.errors.push(e);
                    proof {
                        assert(self.errors@.map_values(|d: Diagnostic<'src>| d@) =~= old_errors.map_values(
                            |d: Diagnostic<'src>| d@,
                        ).push(e@));
                    }
                },
            }
            i = i + 1;
        }
    }

    /// Analyzes a whole module, in the context of everything analyzed so far.
    fn analyzer(&mut self, module: &str, fuel: usize)
        requires
            old(self).wf(),
            analyze_module(old(self).files_map(), old(self).state(), module@, fuel as nat) is Some,
        ensures
            final(self).wf(),
            final(self).files@ == old(self).files@,
            final(self).current_module_name@ == old(self).current_module_name@,
            analyze_module(old(self).files_map(), old(self).state(), module@, fuel as nat) == Some(
                final(self).state(),
            ),
        decreases fuel, 0int,
    {
        if fuel == 0 {
            vstd::pervasive::unreached()
        } else {
            let previous_module_name = String::from_str(self.current_module_name.as_str());
            self.current_module_name = String::from_str(module);
            match self.get_file(module) {
                Some(program) => self.analyzer_inner(program, fuel - 1),
                None => vstd::pervasive::unreached(),
            }
            self.current_module_name = previous_module_name;
        }
    }
}

/// Analyzes the program made of `files`, each a module with its name,
/// starting at the module `main` of the package. Returns the analyzed
/// functions, in the order their analysis finished, and the diagnostics of
/// the declarations that were rejected.
pub fn analyzer<'src>(files: &Vec<(String, parser_ast::Program<'src>)>, package_name: &str) -> (r: (
    analyzer_ast::Program<'src>,
    Vec<Diagnostic<'src>>,
))
    requires
        analysis(files@, package_name@) is Some,
    ensures
        analysis(files@, package_name@) matches Some(st) && r.1@.map_values(|d: Diagnostic<'src>| d@)
            == st.errors && r.0.declarations@.len() == st.program.len() && forall|i: int|
            0 <= i < st.program.len() ==> lowers_decl(#[trigger] r.0.declarations@[i], st.program[i]),
{
    let main = concat(package_name, ".main");
    let mut analyzer = Analyzer {
        files,
        declarations: TypecheckedDeclarations::new(),
        program: analyzer_ast::Program { declarations: Vec::new() },
        lowered: Ghost(Seq::empty()),
        errors: Vec::new(),
        variables: Vec::new(),
        current_module_name: String::from_str(main.as_str()),
        context_name_mapping: ContextNameMapping(Vec::new()),
    };
    proof {
        assert(analyzer.errors@.map_values(|d: Diagnostic<'src>| d@) =~= Seq::<DiagnosticView<'src>>::empty());
        assert(analyzer.state() == initial_state::<'src>());
    }
    analyzer.analyzer(main.as_str(), files.len());
    (analyzer.program, analyzer.errors)
}


/// The analysis accepted the function recorded in `entry`, in the context recorded with it.
pub open spec fn accepted<'src>(entry: (parser_ast::Function<'src>, Ctx<'src>)) -> bool {
    analyze_function(entry.0, entry.1) is Done
}

/// Every function of the program was accepted.
pub open spec fn all_accepted<'src>(program: Seq<(parser_ast::Function<'src>, Ctx<'src>)>) -> bool {
    forall|i: int| 0 <= i < program.len() ==> #[trigger] accepted(program[i])
}

proof fn lemma_decl_accepted<'src>(
    files: Map<Seq<char>, parser_ast::Program<'src>>,
    st: State<'src>,
    module: Seq<char>,
    d: parser_ast::Declaration<'src>,
    fuel: nat,
)
    requires
        all_accepted(st.program),
        analyze_decl(files, st, module, d, fuel) is Some,
    ensures
        all_accepted(analyze_decl(files, st, module, d, fuel)->0.program),
    decreases fuel, 1int,
{
    match d {
        parser_ast::Declaration::Function(f) => {
            let r = analyze_decl(files, st, module, d, fuel)->0;
            assert forall|i: int| 0 <= i < r.program.len() implies #[trigger] accepted(r.program[i]) by {
                if i < st.program.len() {
                    assert(r.program[i] == st.program[i]);
                }
            }
        },
        parser_ast::Declaration::Use(u) => {
            let ids = u.import@;
            let last = ids.last().inner@;
            let path = join_dots(ids, ids.len() - 1);
            let name = if files.contains_key(path) {
                path
            } else {
                path + "."@ + last
            };
            if files.contains_key(name) && !st.decls.contains_key((name, last)) {
                lemma_module_accepted(files, st, name, fuel);
            }
        },
        _ => {},
    }
}

proof fn lemma_decls_accepted<'src>(
    files: Map<Seq<char>, parser_ast::Program<'src>>,
    st: State<'src>,
    module: Seq<char>,
    ds: Seq<parser_ast::Declaration<'src>>,
    n: int,
    fuel: nat,
)
    requires
        all_accepted(st.program),
        analyze_decls(files, st, module, ds, n, fuel) is Some,
    ensures
        all_accepted(analyze_decls(files, st, module, ds, n, fuel)->0.program),
    decreases fuel, n + 1,
{
    if 0 < n <= ds.len() {
        lemma_decls_accepted(files, st, module, ds, n - 1, fuel);
        let s = analyze_decls(files, st, module, ds, n - 1, fuel)->0;
        lemma_decl_accepted(files, s, module, ds[n - 1], fuel);
    }
}

proof fn lemma_module_accepted<'src>(
    files: Map<Seq<char>, parser_ast::Program<'src>>,
    st: State<'src>,
    module: Seq<char>,
    fuel: nat,
)
    requires
        all_accepted(st.program),
        analyze_module(files, st, module, fuel) is Some,
    ensures
        all_accepted(analyze_module(files, st, module, fuel)->0.program),
    decreases fuel, 0int,
{
    if fuel > 0 && files.contains_key(module) {
        lemma_decls_accepted(
            files,
            st,
            module,
            files[module].declarations@,
            files[module].declarations@.len() as int,
            (fuel - 1) as nat,
        );
    }
}

/// Type soundness of the analysis: every function in an analyzed program
/// was accepted in the context it was analyzed in, and unless it is a
/// standard `print`, the type of its body lines up with its declared
/// return type.
pub proof fn law_analyzed_functions_are_well_typed<'src>(
    files: Seq<(String, parser_ast::Program<'src>)>,
    package: Seq<char>,
)
    requires
        analysis(files, package) is Some,
    ensures
        forall|i: int|
            0 <= i < analysis(files, package)->0.program.len() ==> {
                let entry = #[trigger] analysis(files, package)->0.program[i];
                &&& analyze_function(entry.0, entry.1) is Done
                &&& !is_builtin_print(entry.1.module, entry.0) ==> types_align(
                    spec_visit_type(entry.0.ret_ty.kind),
                    block_type(entry.0.body, params_vars(entry.0.params@, entry.0.params@.len() as int), entry.1),
                )
            },
{
    let st0 = initial_state::<'src>();
    assert(all_accepted(st0.program));
    lemma_module_accepted(files_view(files), st0, package + ".main"@, files.len());
    let prog = analysis(files, package)->0.program;
    assert forall|i: int| 0 <= i < prog.len() implies {
        let entry = #[trigger] prog[i];
        &&& analyze_function(entry.0, entry.1) is Done
        &&& !is_builtin_print(entry.1.module, entry.0) ==> types_align(
            spec_visit_type(entry.0.ret_ty.kind),
            block_type(entry.0.body, params_vars(entry.0.params@, entry.0.params@.len() as int), entry.1),
        )
    } by {
        assert(accepted(prog[i]));
    }
}

/// Lining up is reflexive.
pub proof fn law_types_align_reflexive<'src>(a: TypeKind<'src>)
    ensures
        types_align(a, a),
{
}

/// Lining up is symmetric.
pub proof fn law_types_align_symmetric<'src>(a: TypeKind<'src>, b: TypeKind<'src>)
    ensures
        types_align(a, b) == types_align(b, a),
{
}

/// Lining up is transitive.
pub proof fn law_types_align_transitive<'src>(a: TypeKind<'src>, b: TypeKind<'src>, c: TypeKind<'src>)
    requires
        types_align(a, b),
        types_align(b, c),
    ensures
        types_align(a, c),
{
}

/// The same type always lines up with itself.
pub proof fn law_same_type_aligns<'src>(a: TypeKind<'src>, b: TypeKind<'src>)
    requires
        same_type(a, b),
    ensures
        types_align(a, b),
{
}

/// Two types line up only when they are the same type: the same builtin
/// type, or two named types of the same name (wherever they were written).
pub proof fn law_aligned_types_are_the_same<'src>(a: TypeKind<'src>, b: TypeKind<'src>)
    requires
        types_align(a, b),
    ensures
        !(a is Ident) ==> a == b,
        a matches TypeKind::Ident(x) ==> b matches TypeKind::Ident(y) && x.inner@ == y.inner@,
{
}

/// An arithmetic or comparison expression whose two sides have different
/// builtin types is refused, with the diagnostic that names both types.
pub proof fn law_mismatched_operands_are_refused<'src>(
    op: parser_ast::BinaryOp,
    lt: TypeKind<'src>,
    rt: TypeKind<'src>,
    span: Span<'src>,
    lspan: Span<'src>,
    rspan: Span<'src>,
)
    requires
        !is_logical(op),
        !(lt is Ident),
        !(rt is Ident),
        lt != rt,
    ensures
        check_binary(op, lt, rt, span, lspan, rspan) == Outcome::<'src, TypeKind<'src>>::Failed(
            error_view(span, mismatch_message(op, lt, rt)).with_error_label(
                lspan,
                "This is "@ + quoted(lt),
            ).with_error_label(rspan, "This is "@ + quoted(rt)),
        ),
{
    reveal_strlit("int");
    reveal_strlit("float");
    reveal_strlit("string");
    reveal_strlit("bool");
    reveal_strlit("void");
}

/// Adding a float to an integer literal, in either order, is refused: the
/// sides of an arithmetic expression must have the same type.
pub proof fn law_int_and_float_do_not_mix<'src>(
    op: parser_ast::BinaryOp,
    i: i64,
    f: &'src str,
    span: Span<'src>,
    ispan: Span<'src>,
    fspan: Span<'src>,
    vars: Vars<'src>,
    ctx: Ctx<'src>,
)
    requires
        !is_logical(op),
    ensures
        analyze_expr(
            parser_ast::Expr {
                kind: parser_ast::ExprKind::Binary {
                    op,
                    left: Box::new(parser_ast::Expr { kind: parser_ast::ExprKind::IntLiteral(i), span: ispan }),
                    right: Box::new(parser_ast::Expr { kind: parser_ast::ExprKind::FloatLiteral(f), span: fspan }),
                },
                span,
            },
            vars,
            ctx,
        ) is Failed,
        analyze_expr(
            parser_ast::Expr {
                kind: parser_ast::ExprKind::Binary {
                    op,
                    left: Box::new(parser_ast::Expr { kind: parser_ast::ExprKind::FloatLiteral(f), span: fspan }),
                    right: Box::new(parser_ast::Expr { kind: parser_ast::ExprKind::IntLiteral(i), span: ispan }),
                },
                span,
            },
            vars,
            ctx,
        ) is Failed,
{
    let ie = parser_ast::Expr { kind: parser_ast::ExprKind::IntLiteral(i), span: ispan };
    let fe = parser_ast::Expr { kind: parser_ast::ExprKind::FloatLiteral(f), span: fspan };
    assert(analyze_expr(ie, vars, ctx) == Outcome::<'src, (TypeKind<'src>, Vars<'src>)>::Done((TypeKind::Int, vars)));
    assert(analyze_expr(fe, vars, ctx) == Outcome::<'src, (TypeKind<'src>, Vars<'src>)>::Done((TypeKind::Float, vars)));
    law_mismatched_operands_are_refused(op, TypeKind::Int, TypeKind::Float, span, ispan, fspan);
    law_mismatched_operands_are_refused(op, TypeKind::Float, TypeKind::Int, span, fspan, ispan);
    let e1 = parser_ast::Expr {
        kind: parser_ast::ExprKind::Binary { op, left: Box::new(ie), right: Box::new(fe) },
        span,
    };
    let e2 = parser_ast::Expr {
        kind: parser_ast::ExprKind::Binary { op, left: Box::new(fe), right: Box::new(ie) },
        span,
    };
    assert(analyze_expr(e1, vars, ctx) is Failed);
    assert(analyze_expr(e2, vars, ctx) is Failed);
}

} // verus!
