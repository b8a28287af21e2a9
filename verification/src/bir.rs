//! Lowering of the analyzed program to the backend intermediate
//! representation: spans are dropped, every closure gets a unique name, and
//! each closure lists the variables of enclosing scopes that its body uses.

use crate::analyzer_ast as a_ast;
use crate::analyzer_ast::Vis;
use crate::bir_ast;
use crate::utils::{concat, digit_text, nat_text, str_eq, usize_text};
use vstd::prelude::*;
use vstd::string::*;

verus! {

// ---------------------------------------------------------------------------
// Which constructs the lowering handles
// ---------------------------------------------------------------------------

/// The expressions the lowering handles: no unary operators, struct
/// instances, member accesses or `if` expressions yet.
pub open spec fn supported_expr<'src>(e: a_ast::Expr<'src>) -> bool
    decreases e, 0int,
{
    match e {
        a_ast::Expr::Unary { .. } => false,
        a_ast::Expr::StructInstance { .. } => false,
        a_ast::Expr::Member { .. } => false,
        a_ast::Expr::If { .. } => false,
        a_ast::Expr::StringInterpolation(es) => supported_exprs(es@, es@.len() as int),
        a_ast::Expr::Binary { left, right, .. } => supported_expr(*left) && supported_expr(*right),
        a_ast::Expr::Call { call, .. } => supported_exprs(call.args@, call.args@.len() as int),
        a_ast::Expr::Closure(c) => supported_params(c.params@, c.params@.len() as int) && supported_block(
            c.body,
        ),
        _ => true,
    }
}

pub open spec fn supported_exprs<'src>(es: Seq<a_ast::Expr<'src>>, n: int) -> bool
    decreases es, n,
{
    if n <= 0 || n > es.len() {
        true
    } else {
        supported_exprs(es, n - 1) && supported_expr(es[n - 1])
    }
}

pub open spec fn supported_params<'src>(ps: Seq<a_ast::Param<'src>>, n: int) -> bool
    decreases ps, n,
{
    if n <= 0 || n > ps.len() {
        true
    } else {
        supported_params(ps, n - 1) && (ps[n - 1].default matches Some(d) ==> supported_expr(d))
    }
}

pub open spec fn supported_block<'src>(b: a_ast::Block<'src>) -> bool
    decreases b, 0int,
{
    supported_stmts(b.statements@, b.statements@.len() as int)
}

pub open spec fn supported_stmts<'src>(ss: Seq<a_ast::Statement<'src>>, n: int) -> bool
    decreases ss, n,
{
    if n <= 0 || n > ss.len() {
        true
    } else {
        supported_stmts(ss, n - 1) && supported_stmt(ss[n - 1])
    }
}

/// The statements the lowering handles: no struct or enum definitions yet.
pub open spec fn supported_stmt<'src>(s: a_ast::Statement<'src>) -> bool
    decreases s, 0int,
{
    match s {
        a_ast::Statement::Let { expr, .. } => supported_expr(expr),
        a_ast::Statement::Assign { expr, .. } => supported_expr(expr),
        a_ast::Statement::Return { expr, .. } => expr matches Some(e) ==> supported_expr(e),
        a_ast::Statement::Function(f) => supported_function(f),
        a_ast::Statement::Struct(_) => false,
        a_ast::Statement::Enum(_) => false,
        a_ast::Statement::Expr(e) => supported_expr(e),
        a_ast::Statement::ForLoop { cond, block, .. } => (cond matches Some(c) ==> supported_expr(c))
            && supported_block(block),
        _ => true,
    }
}

pub open spec fn supported_function<'src>(f: a_ast::Function<'src>) -> bool
    decreases f, 0int,
{
    supported_params(f.params@, f.params@.len() as int) && supported_block(f.body)
}

/// The declarations the lowering handles: functions.
pub open spec fn supported_decl<'src>(d: a_ast::Declaration<'src>) -> bool {
    d matches a_ast::Declaration::Function(f) && supported_function(f)
}

// ---------------------------------------------------------------------------
// How many closures a piece of the program holds
// ---------------------------------------------------------------------------

pub open spec fn count_expr<'src>(e: a_ast::Expr<'src>) -> nat
    decreases e, 0int,
{
    match e {
        a_ast::Expr::StringInterpolation(es) => count_exprs(es@, es@.len() as int),
        a_ast::Expr::Binary { left, right, .. } => count_expr(*left) + count_expr(*right),
        a_ast::Expr::Call { call, .. } => count_exprs(call.args@, call.args@.len() as int),
        a_ast::Expr::Closure(c) => count_params(c.params@, c.params@.len() as int) + count_block(c.body)
            + 1,
        _ => 0,
    }
}

pub open spec fn count_exprs<'src>(es: Seq<a_ast::Expr<'src>>, n: int) -> nat
    decreases es, n,
{
    if n <= 0 || n > es.len() {
        0
    } else {
        count_exprs(es, n - 1) + count_expr(es[n - 1])
    }
}

pub open spec fn count_params<'src>(ps: Seq<a_ast::Param<'src>>, n: int) -> nat
    decreases ps, n,
{
    if n <= 0 || n > ps.len() {
        0
    } else {
        count_params(ps, n - 1) + match ps[n - 1].default {
            Some(d) => count_expr(d),
            None => 0,
        }
    }
}

pub open spec fn count_block<'src>(b: a_ast::Block<'src>) -> nat
    decreases b, 0int,
{
    count_stmts(b.statements@, b.statements@.len() as int)
}

pub open spec fn count_stmts<'src>(ss: Seq<a_ast::Statement<'src>>, n: int) -> nat
    decreases ss, n,
{
    if n <= 0 || n > ss.len() {
        0
    } else {
        count_stmts(ss, n - 1) + count_stmt(ss[n - 1])
    }
}

pub open spec fn count_opt<'src>(e: Option<a_ast::Expr<'src>>) -> nat
    decreases e, 1int,
{
    match e {
        Some(x) => count_expr(x),
        None => 0,
    }
}

pub open spec fn count_stmt<'src>(s: a_ast::Statement<'src>) -> nat
    decreases s, 2int,
{
    match s {
        a_ast::Statement::Let { expr, .. } => count_expr(expr),
        a_ast::Statement::Assign { expr, .. } => count_expr(expr),
        a_ast::Statement::Return { expr, .. } => count_opt(expr),
        a_ast::Statement::Function(f) => count_function(f),
        a_ast::Statement::Expr(e) => count_expr(e),
        a_ast::Statement::ForLoop { cond, block, .. } => count_opt(cond) + count_block(block),
        _ => 0,
    }
}

pub open spec fn count_function<'src>(f: a_ast::Function<'src>) -> nat
    decreases f, 0int,
{
    count_params(f.params@, f.params@.len() as int) + count_block(f.body)
}

pub open spec fn count_decls<'src>(ds: Seq<a_ast::Declaration<'src>>, n: int) -> nat
    decreases n,
{
    if n <= 0 || n > ds.len() {
        0
    } else {
        count_decls(ds, n - 1) + match ds[n - 1] {
            a_ast::Declaration::Function(f) => count_function(f),
            _ => 0,
        }
    }
}

// ---------------------------------------------------------------------------
// The variables declared mutable in the current scope
// ---------------------------------------------------------------------------

/// The names declared `let mut` in the current scope after the first `n`
/// statements of a block, starting from `m`; the names a block declares go
/// out of scope at its end, so nested blocks leave no trace here.
pub open spec fn mut_stmts<'src>(ss: Seq<a_ast::Statement<'src>>, n: int, m: Set<Seq<char>>) -> Set<Seq<char>>
    decreases ss, n,
{
    if n <= 0 || n > ss.len() {
        m
    } else {
        mut_stmt(ss[n - 1], mut_stmts(ss, n - 1, m))
    }
}

/// A `let mut` adds its name to the current scope.
pub open spec fn mut_stmt<'src>(s: a_ast::Statement<'src>, m: Set<Seq<char>>) -> Set<Seq<char>> {
    match s {
        a_ast::Statement::Let { name, mutable, .. } => if mutable {
            m.insert(name.inner@)
        } else {
            m
        },
        _ => m,
    }
}

// ---------------------------------------------------------------------------
// Free variables of lowered code
// ---------------------------------------------------------------------------

/// The variables an expression uses that are not in `locals`, added to `acc`
/// with their types; a later use replaces the type of an earlier one. The
/// branches of an `if` see `locals` but do not add to it; closures inside
/// the expression are not looked into.
pub open spec fn free_in_expr<'src>(
    e: bir_ast::Expr<'src>,
    locals: Set<Seq<char>>,
    acc: Map<Seq<char>, bir_ast::TypeKind<'src>>,
) -> Map<Seq<char>, bir_ast::TypeKind<'src>>
    decreases e, 0int,
{
    match e {
        bir_ast::Expr::Ident { ident, ty } => if locals.contains(ident.inner@) {
            acc
        } else {
            acc.insert(ident.inner@, ty)
        },
        bir_ast::Expr::Binary { left, right, .. } => free_in_expr(*right, locals, free_in_expr(*left, locals, acc)),
        bir_ast::Expr::Unary { expr, .. } => free_in_expr(*expr, locals, acc),
        bir_ast::Expr::Call { call, .. } => free_in_exprs(call.args@, call.args@.len() as int, locals, acc),
        bir_ast::Expr::StringInterpolation(parts) => free_in_exprs(parts@, parts@.len() as int, locals, acc),
        bir_ast::Expr::If { cond, then, else_if_blocks, else_block, .. } => {
            let a1 = free_in_expr(*cond, locals, acc);
            let a2 = free_in_block(then, locals, a1).1;
            let a3 = free_in_else_ifs(else_if_blocks@, else_if_blocks@.len() as int, locals, a2);
            match else_block {
                Some(b) => free_in_block(b, locals, a3).1,
                None => a3,
            }
        },
        _ => acc,
    }
}

pub open spec fn free_in_exprs<'src>(
    es: Seq<bir_ast::Expr<'src>>,
    n: int,
    locals: Set<Seq<char>>,
    acc: Map<Seq<char>, bir_ast::TypeKind<'src>>,
) -> Map<Seq<char>, bir_ast::TypeKind<'src>>
    decreases es, n,
{
    if n <= 0 || n > es.len() {
        acc
    } else {
        free_in_expr(es[n - 1], locals, free_in_exprs(es, n - 1, locals, acc))
    }
}

/// The variables the first `n` else-if branches use that are not in
/// `locals`: each condition, then its block, which sees `locals` but does not
/// add to it.
pub open spec fn free_in_else_ifs<'src>(
    ps: Seq<(bir_ast::Expr<'src>, bir_ast::Block<'src>)>,
    n: int,
    locals: Set<Seq<char>>,
    acc: Map<Seq<char>, bir_ast::TypeKind<'src>>,
) -> Map<Seq<char>, bir_ast::TypeKind<'src>>
    decreases ps, n,
{
    if n <= 0 || n > ps.len() {
        acc
    } else {
        let a1 = free_in_else_ifs(ps, n - 1, locals, acc);
        free_in_block(ps[n - 1].1, locals, free_in_expr(ps[n - 1].0, locals, a1)).1
    }
}

/// The free variables of a block, and the local names after it: a `let`
/// adds its name after its value, and a loop body's names stay.
pub open spec fn free_in_block<'src>(
    b: bir_ast::Block<'src>,
    locals: Set<Seq<char>>,
    acc: Map<Seq<char>, bir_ast::TypeKind<'src>>,
) -> (Set<Seq<char>>, Map<Seq<char>, bir_ast::TypeKind<'src>>)
    decreases b, 0int,
{
    free_in_stmts(b.statements@, b.statements@.len() as int, locals, acc)
}

pub open spec fn free_in_stmts<'src>(
    ss: Seq<bir_ast::Statement<'src>>,
    n: int,
    locals: Set<Seq<char>>,
    acc: Map<Seq<char>, bir_ast::TypeKind<'src>>,
) -> (Set<Seq<char>>, Map<Seq<char>, bir_ast::TypeKind<'src>>)
    decreases ss, n,
{
    if n <= 0 || n > ss.len() {
        (locals, acc)
    } else {
        let (l1, a1) = free_in_stmts(ss, n - 1, locals, acc);
        free_in_stmt(ss[n - 1], l1, a1)
    }
}

pub open spec fn free_in_stmt<'src>(
    s: bir_ast::Statement<'src>,
    locals: Set<Seq<char>>,
    acc: Map<Seq<char>, bir_ast::TypeKind<'src>>,
) -> (Set<Seq<char>>, Map<Seq<char>, bir_ast::TypeKind<'src>>)
    decreases s, 0int,
{
    match s {
        bir_ast::Statement::Let { name, expr, .. } => (
            locals.insert(name.inner@),
            free_in_expr(expr, locals, acc),
        ),
        bir_ast::Statement::Assign { expr, .. } => (locals, free_in_expr(expr, locals, acc)),
        bir_ast::Statement::Return { expr } => match expr {
            Some(e) => (locals, free_in_expr(e, locals, acc)),
            None => (locals, acc),
        },
        bir_ast::Statement::Expr(e) => (locals, free_in_expr(e, locals, acc)),
        bir_ast::Statement::ForLoop { cond, block } => {
            let a1 = match cond {
                Some(c) => free_in_expr(c, locals, acc),
                None => acc,
            };
            free_in_block(block, locals, a1)
        },
        _ => (locals, acc),
    }
}

/// The names of the parameters.
pub open spec fn param_names<'src>(ps: Seq<bir_ast::Param<'src>>) -> Set<Seq<char>> {
    Set::new(|s: Seq<char>| exists|i: int| 0 <= i < ps.len() && ps[i].name.inner@ == s)
}

/// The captures of a closure list each free variable once, with its type and
/// whether it was declared mutable; their order is unspecified.
pub open spec fn captures_of<'src>(
    cs: Seq<(String, bir_ast::TypeKind<'src>, bool)>,
    free: Map<Seq<char>, bir_ast::TypeKind<'src>>,
    mutables: Set<Seq<char>>,
) -> bool {
    &&& forall|i: int, j: int| 0 <= i < j < cs.len() ==> cs[i].0@ != cs[j].0@
    &&& forall|i: int|
        0 <= i < cs.len() ==> free.contains_key(#[trigger] cs[i].0@) && cs[i].1 == free[cs[i].0@]
            && cs[i].2 == mutables.contains(cs[i].0@)
    &&& forall|k: Seq<char>| free.contains_key(k) ==> exists|i: int| 0 <= i < cs.len() && #[trigger] cs[i].0@ == k
}

// ---------------------------------------------------------------------------
// Names of closures
// ---------------------------------------------------------------------------

/// The name of the closure numbered `n`.
pub open spec fn closure_name(n: nat) -> Seq<char> {
    "__closure_"@ + nat_text(n)
}

// ---------------------------------------------------------------------------
// What the lowering makes of each construct
// ---------------------------------------------------------------------------

/// The lowered type for an analyzed one.
pub open spec fn bir_type<'src>(t: a_ast::TypeKind<'src>) -> bir_ast::TypeKind<'src> {
    match t {
        a_ast::TypeKind::Ident(ident) => bir_ast::TypeKind::Ident(bir_ast::Ident { inner: ident.inner }),
        a_ast::TypeKind::Int => bir_ast::TypeKind::Int,
        a_ast::TypeKind::Float => bir_ast::TypeKind::Float,
        a_ast::TypeKind::String => bir_ast::TypeKind::String,
        a_ast::TypeKind::Bool => bir_ast::TypeKind::Bool,
        a_ast::TypeKind::Void => bir_ast::TypeKind::Void,
    }
}

/// `out` is the lowering of `e`, where `c` closures were numbered before it
/// and `m` holds the names declared `let mut` in the current scope.
pub open spec fn lowers_expr<'src>(out: bir_ast::Expr<'src>, e: a_ast::Expr<'src>, c: nat, m: Set<Seq<char>>) -> bool
    decreases e, 0int,
{
    match e {
        a_ast::Expr::IntLiteral(i) => out == bir_ast::Expr::IntLiteral(i),
        a_ast::Expr::FloatLiteral(f) => out == bir_ast::Expr::FloatLiteral(f),
        a_ast::Expr::BoolLiteral(b) => out == bir_ast::Expr::BoolLiteral(b),
        a_ast::Expr::StringLiteral(s) => out == bir_ast::Expr::StringLiteral(s),
        a_ast::Expr::StringInterpolation(es) => out matches bir_ast::Expr::StringInterpolation(os)
            && os@.len() == es@.len() && lowers_exprs(os@, es@, es@.len() as int, c, m),
        a_ast::Expr::Ident { ident, ty } => out == bir_ast::Expr::Ident {
            ident: bir_ast::Ident { inner: ident.inner },
            ty: bir_type(ty),
        },
        a_ast::Expr::Binary { op, left, right, ty } => out matches bir_ast::Expr::Binary {
            op: o,
            ty: t,
            left: l,
            right: r,
        } && o == bir_ast::spec_binary_from(op) && t == bir_type(ty) && lowers_expr(*l, *left, c, m)
            && lowers_expr(*r, *right, c + count_expr(*left), m),
        a_ast::Expr::Call { call, ty } => out matches bir_ast::Expr::Call { call: oc, ty: t }
            && oc.callee@ == call.callee@ && t == bir_type(ty) && oc.args@.len() == call.args@.len()
            && lowers_exprs(oc.args@, call.args@, call.args@.len() as int, c, m),
        a_ast::Expr::Closure(cl) => {
            let np = cl.params@.len() as int;
            let c1 = c + count_params(cl.params@, np);
            out matches bir_ast::Expr::Closure { mangled_name, params, ret_ty, body, captures }
                && params@.len() == cl.params@.len() && lowers_params(params@, cl.params@, np, c, m)
                && lowers_block(body, cl.body, c1, m) && ret_ty == bir_type(cl.ret_ty)
                && mangled_name@ == closure_name(c1 + count_block(cl.body)) && captures_of(
                captures@,
                free_in_block(body, param_names(params@), Map::empty()).1,
                m,
            )
        },
        _ => false,
    }
}

pub open spec fn lowers_exprs<'src>(os: Seq<bir_ast::Expr<'src>>, es: Seq<a_ast::Expr<'src>>, n: int, c: nat, m: Set<Seq<char>>) -> bool
    decreases es, n,
{
    if n <= 0 || n > es.len() {
        n == 0
    } else {
        lowers_exprs(os, es, n - 1, c, m) && lowers_expr(
            os[n - 1],
            es[n - 1],
            c + count_exprs(es, n - 1),
            m,
        )
    }
}

pub open spec fn lowers_params<'src>(os: Seq<bir_ast::Param<'src>>, ps: Seq<a_ast::Param<'src>>, n: int, c: nat, m: Set<Seq<char>>) -> bool
    decreases ps, n,
{
    if n <= 0 || n > ps.len() {
        n == 0
    } else {
        let o = os[n - 1];
        let p = ps[n - 1];
        &&& lowers_params(os, ps, n - 1, c, m)
        &&& o.name.inner == p.name.inner
        &&& o.ty == bir_type(p.ty.kind)
        &&& match p.default {
            Some(d) => o.default matches Some(x) && lowers_expr(
                x,
                d,
                c + count_params(ps, n - 1),
                m,
            ),
            None => o.default is None,
        }
    }
}

pub open spec fn lowers_block<'src>(out: bir_ast::Block<'src>, b: a_ast::Block<'src>, c: nat, m: Set<Seq<char>>) -> bool
    decreases b, 0int,
{
    out.statements@.len() == b.statements@.len() && lowers_stmts(
        out.statements@,
        b.statements@,
        b.statements@.len() as int,
        c,
        m,
    )
}

pub open spec fn lowers_stmts<'src>(os: Seq<bir_ast::Statement<'src>>, ss: Seq<a_ast::Statement<'src>>, n: int, c: nat, m: Set<Seq<char>>) -> bool
    decreases ss, n,
{
    if n <= 0 || n > ss.len() {
        n == 0
    } else {
        lowers_stmts(os, ss, n - 1, c, m) && lowers_stmt(
            os[n - 1],
            ss[n - 1],
            c + count_stmts(ss, n - 1),
            mut_stmts(ss, n - 1, m),
        )
    }
}

pub open spec fn lowers_stmt<'src>(out: bir_ast::Statement<'src>, s: a_ast::Statement<'src>, c: nat, m: Set<Seq<char>>) -> bool
    decreases s, 2int,
{
    match s {
        a_ast::Statement::Let { name, expr, mutable, .. } => out matches bir_ast::Statement::Let {
            name: n2,
            expr: e2,
            mutable: m2,
        } && n2.inner == name.inner && m2 == mutable && lowers_expr(
            e2,
            expr,
            c,
            if mutable {
                m.insert(name.inner@)
            } else {
                m
            },
        ),
        a_ast::Statement::Assign { name, expr, .. } => out matches bir_ast::Statement::Assign {
            name: n2,
            expr: e2,
        } && n2.inner == name.inner && lowers_expr(e2, expr, c, m),
        a_ast::Statement::Return { expr, .. } => out matches bir_ast::Statement::Return { expr: e2 } && (
        match expr {
            Some(e) => e2 matches Some(x) && lowers_expr(x, e, c, m),
            None => e2 is None,
        }),
        a_ast::Statement::Function(f) => out matches bir_ast::Statement::Function(g) && lowers_function(
            g,
            f,
            c,
        ),
        a_ast::Statement::Expr(e) => out matches bir_ast::Statement::Expr(e2) && lowers_expr(e2, e, c, m),
        a_ast::Statement::ForLoop { cond, block, .. } => out matches bir_ast::Statement::ForLoop {
            cond: c2,
            block: b2,
        } && (match cond {
            Some(x) => c2 matches Some(y) && lowers_expr(y, x, c, m),
            None => c2 is None,
        }) && lowers_block(b2, block, c + count_opt(cond), m),
        a_ast::Statement::Break { .. } => out is Break,
        a_ast::Statement::Continue { .. } => out is Continue,
        _ => false,
    }
}

/// `out` is the lowering of the function `f`: same name, parameters and
/// body lowered in order, public exactly when `f` is public. A function opens
/// a scope of its own: no name declared `let mut` outside it is in scope.
pub open spec fn lowers_function<'src>(out: bir_ast::Function<'src>, f: a_ast::Function<'src>, c: nat) -> bool
    decreases f, 0int,
{
    let np = f.params@.len() as int;
    &&& out.name@ == f.name@
    &&& out.params@.len() == f.params@.len()
    &&& lowers_params(out.params@, f.params@, np, c, Set::empty())
    &&& out.ret_ty == bir_type(f.ret_ty)
    &&& lowers_block(out.body, f.body, c + count_params(f.params@, np), Set::empty())
    &&& out.public == (f.vis == Vis::Public)
}

pub open spec fn lowers_decls<'src>(os: Seq<bir_ast::Declaration<'src>>, ds: Seq<a_ast::Declaration<'src>>, n: int) -> bool
    decreases n,
{
    if n <= 0 || n > ds.len() {
        n == 0
    } else {
        lowers_decls(os, ds, n - 1) && (ds[n - 1] matches a_ast::Declaration::Function(f) && os[n
            - 1] matches bir_ast::Declaration::Function(g) && lowers_function(
            g,
            f,
            count_decls(ds, n - 1),
        ))
    }
}


// ---------------------------------------------------------------------------
// Sets and maps of names
// ---------------------------------------------------------------------------

/// The names held in a vector, as a set.
pub open spec fn strs_set(v: Seq<String>) -> Set<Seq<char>> {
    Set::new(|s: Seq<char>| exists|i: int| 0 <= i < v.len() && #[trigger] v[i]@ == s)
}

/// The names and types held in a vector, as a map; a later entry replaces an earlier one.
pub open spec fn types_map<'src>(v: Seq<(String, bir_ast::TypeKind<'src>)>) -> Map<Seq<char>, bir_ast::TypeKind<'src>>
    decreases v.len(),
{
    if v.len() == 0 {
        Map::empty()
    } else {
        types_map(v.drop_last()).insert(v.last().0@, v.last().1)
    }
}

fn contains_str(v: &Vec<String>, name: &str) -> (r: bool)
    ensures
        r == strs_set(v@).contains(name@),
{
    let mut i: usize = 0;
    while i < v.len()
        invariant
            0 <= i <= v@.len(),
            forall|j: int| 0 <= j < i ==> v@[j]@ != name@,
        decreases v@.len() - i,
    {
        if str_eq(v[i].as_str(), name) {
            assert(strs_set(v@).contains(name@) <==> exists|j: int| 0 <= j < v@.len() && #[trigger] v@[j]@ == name@);
            return true;
        }
        i = i + 1;
    }
    assert(!(exists|j: int| 0 <= j < v@.len() && #[trigger] v@[j]@ == name@));
    false
}

fn insert_str(v: &mut Vec<String>, name: &str)
    ensures
        strs_set(final(v)@) == strs_set(old(v)@).insert(name@),
{
    let ghost before = v@;
    v.push(String::from_str(name));
    proof {
        assert forall|s: Seq<char>| strs_set(v@).contains(s) <==> strs_set(before).insert(name@).contains(s) by {
            if strs_set(before).contains(s) {
                let j = choose|j: int| 0 <= j < before.len() && #[trigger] before[j]@ == s;
                assert(v@[j]@ == s);
            }
            if s == name@ {
                assert(v@[before.len() as int]@ == s);
            }
            if strs_set(v@).contains(s) && s != name@ {
                let j = choose|j: int| 0 <= j < v@.len() && #[trigger] v@[j]@ == s;
                assert(before[j]@ == s);
            }
        }
        assert(strs_set(v@) =~= strs_set(before).insert(name@));
    }
}

fn copy_strs(v: &Vec<String>) -> (r: Vec<String>)
    ensures
        strs_set(r@) == strs_set(v@),
{
    let mut r: Vec<String> = Vec::new();
    let mut i: usize = 0;
    while i < v.len()
        invariant
            0 <= i <= v@.len(),
            r@.len() == i,
            forall|j: int| 0 <= j < i ==> r@[j]@ == v@[j]@,
        decreases v@.len() - i,
    {
        r.push(String::from_str(v[i].as_str()));
        i = i + 1;
    }
    assert forall|s: Seq<char>| strs_set(r@).contains(s) <==> strs_set(v@).contains(s) by {
        if strs_set(r@).contains(s) {
            let j = choose|j: int| 0 <= j < r@.len() && #[trigger] r@[j]@ == s;
            assert(v@[j]@ == s);
        }
        if strs_set(v@).contains(s) {
            let j = choose|j: int| 0 <= j < v@.len() && #[trigger] v@[j]@ == s;
            assert(r@[j]@ == s);
        }
    }
    assert(strs_set(r@) =~= strs_set(v@));
    r
}

fn insert_type<'src>(v: &mut Vec<(String, bir_ast::TypeKind<'src>)>, name: &str, ty: bir_ast::TypeKind<'src>)
    ensures
        types_map(final(v)@) == types_map(old(v)@).insert(name@, ty),
{
    let ghost before = v@;
    v.push((String::from_str(name), ty));
    proof {
        assert(v@.drop_last() =~= before);
    }
}

/// The latest type recorded for a name.
fn lookup_type<'src>(v: &Vec<(String, bir_ast::TypeKind<'src>)>, name: &str) -> (r: Option<bir_ast::TypeKind<'src>>)
    ensures
        types_map(v@).contains_key(name@) ==> r == Some(types_map(v@)[name@]),
        !types_map(v@).contains_key(name@) ==> r is None,
{
    let mut i = v.len();
    assert(v@.subrange(0, i as int) =~= v@);
    while i > 0
        invariant
            0 <= i <= v@.len(),
            types_map(v@).contains_key(name@) <==> types_map(v@.subrange(0, i as int)).contains_key(name@),
            types_map(v@).contains_key(name@) ==> types_map(v@)[name@] == types_map(
                v@.subrange(0, i as int),
            )[name@],
        decreases i,
    {
        let ghost prefix = v@.subrange(0, i as int);
        proof {
            assert(prefix.drop_last() =~= v@.subrange(0, i - 1));
        }
        if str_eq(v[i - 1].0.as_str(), name) {
            return Some(v[i - 1].1);
        }
        i = i - 1;
    }
    None
}

/// The names a map built from a vector has are the names in the vector.
proof fn lemma_types_map_keys<'src>(v: Seq<(String, bir_ast::TypeKind<'src>)>, k: Seq<char>)
    ensures
        types_map(v).contains_key(k) <==> exists|i: int| 0 <= i < v.len() && #[trigger] v[i].0@ == k,
    decreases v.len(),
{
    if v.len() > 0 {
        lemma_types_map_keys(v.drop_last(), k);
        if types_map(v.drop_last()).contains_key(k) {
            let i = choose|i: int| 0 <= i < v.drop_last().len() && #[trigger] v.drop_last()[i].0@ == k;
            assert(v[i].0@ == k);
        }
        if exists|i: int| 0 <= i < v.len() && #[trigger] v[i].0@ == k {
            let i = choose|i: int| 0 <= i < v.len() && #[trigger] v[i].0@ == k;
            if i < v.len() - 1 {
                assert(v.drop_last()[i].0@ == k);
            }
        }
    }
}

// ---------------------------------------------------------------------------
// Free variables
// ---------------------------------------------------------------------------

/// Collects the variables a block uses that are not local, growing
/// `local_vars` with the names the block declares.
#[verifier::loop_isolation(false)]
fn collect_idents_in_block<'src>(
    block: &bir_ast::Block<'src>,
    local_vars: &mut Vec<String>,
    out: &mut Vec<(String, bir_ast::TypeKind<'src>)>,
)
    ensures
        (strs_set(final(local_vars)@), types_map(final(out)@)) == free_in_block(
            *block,
            strs_set(old(local_vars)@),
            types_map(old(out)@),
        ),
    decreases block, 0int,
{
    let ghost l0 = strs_set(local_vars@);
    let ghost a0 = types_map(out@);
    let ghost ss = block.statements@;
    let mut i: usize = 0;
    while i < block.statements.len()
        invariant
            0 <= i <= ss.len(),
            ss == block.statements@,
            (strs_set(local_vars@), types_map(out@)) == free_in_stmts(ss, i as int, l0, a0),
        decreases ss.len() - i,
    {
        proof {
            let prev = free_in_stmts(ss, i as int, l0, a0);
            assert(free_in_stmts(ss, i + 1, l0, a0) == free_in_stmt(ss[i as int], prev.0, prev.1));
        }
        match &block.statements[i] {
            bir_ast::Statement::Let { name, expr, .. } => {
                collect_idents_in_expr(expr, local_vars, out);
                insert_str(local_vars, name.inner);
            },
            bir_ast::Statement::Assign { expr, .. } => {
                collect_idents_in_expr(expr, local_vars, out);
            },
            bir_ast::Statement::Return { expr: Some(expr), .. } => {
                collect_idents_in_expr(expr, local_vars, out);
            },
            bir_ast::Statement::Expr(expr) => {
                collect_idents_in_expr(expr, local_vars, out);
            },
            bir_ast::Statement::ForLoop { cond, block } => {
                if let Some(cond) = cond {
                    collect_idents_in_expr(cond, local_vars, out);
                }
                collect_idents_in_block(block, local_vars, out);
            },
            _ => {},
        }
        i = i + 1;
    }
}

/// Collects the variables an expression uses that are not in `local_vars`.
#[verifier::loop_isolation(false)]
fn collect_idents_in_expr<'src>(
    expr: &bir_ast::Expr<'src>,
    local_vars: &Vec<String>,
    out: &mut Vec<(String, bir_ast::TypeKind<'src>)>,
)
    ensures
        types_map(final(out)@) == free_in_expr(*expr, strs_set(local_vars@), types_map(old(out)@)),
    decreases expr, 0int,
{
    let ghost l0 = strs_set(local_vars@);
    match expr {
        bir_ast::Expr::Ident { ident, ty } => {
            if !contains_str(local_vars, ident.inner) {
                insert_type(out, ident.inner, *ty);
            }
        },
        bir_ast::Expr::Binary { left, right, .. } => {
            collect_idents_in_expr(left, local_vars, out);
            collect_idents_in_expr(right, local_vars, out);
        },
        bir_ast::Expr::Unary { expr, .. } => {
            collect_idents_in_expr(expr, local_vars, out);
        },
        bir_ast::Expr::Call { call, .. } => {
            let ghost a0 = types_map(out@);
            let mut i: usize = 0;
            while i < call.args.len()
                invariant
                    0 <= i <= call.args@.len(),
                    types_map(out@) == free_in_exprs(call.args@, i as int, l0, a0),
                decreases call.args@.len() - i,
            {
                collect_idents_in_expr(&call.args[i], local_vars, out);
                i = i + 1;
            }
        },
        bir_ast::Expr::StringInterpolation(parts) => {
            let ghost a0 = types_map(out@);
            let mut i: usize = 0;
            while i < parts.len()
                invariant
                    0 <= i <= parts@.len(),
                    types_map(out@) == free_in_exprs(parts@, i as int, l0, a0),
                decreases parts@.len() - i,
            {
                collect_idents_in_expr(&parts[i], local_vars, out);
                i = i + 1;
            }
        },
        bir_ast::Expr::If { cond, then, else_if_blocks, else_block, .. } => {
            collect_idents_in_expr(cond, local_vars, out);
            let mut then_locals = copy_strs(local_vars);
            collect_idents_in_block(then, &mut then_locals, out);
            let ghost a0 = types_map(out@);
            let mut i: usize = 0;
            while i < else_if_blocks.len()
                invariant
                    0 <= i <= else_if_blocks@.len(),
                    l0 == strs_set(local_vars@),
                    types_map(out@) == free_in_else_ifs(else_if_blocks@, i as int, l0, a0),
                decreases else_if_blocks@.len() - i,
            {
                let (c, b) = &else_if_blocks[i];
                collect_idents_in_expr(c, local_vars, out);
                let mut branch_locals = copy_strs(local_vars);
                collect_idents_in_block(b, &mut branch_locals, out);
                i = i + 1;
            }
            if let Some(els) = else_block {
                let mut else_locals = copy_strs(local_vars);
                collect_idents_in_block(els, &mut else_locals, out);
            }
        },
        // Closures within closures: their captures are handled when the inner closure is visited
        bir_ast::Expr::Closure { .. } => {},
        _ => {},
    }
}

// ---------------------------------------------------------------------------
// The lowering
// ---------------------------------------------------------------------------

fn visit_type<'src>(ty: &a_ast::TypeKind<'src>) -> (r: bir_ast::TypeKind<'src>)
    ensures
        r == bir_type(*ty),
{
    match ty {
        a_ast::TypeKind::Ident(ident) => bir_ast::TypeKind::Ident(bir_ast::Ident::from_analyzer(*ident)),
        a_ast::TypeKind::Int => bir_ast::TypeKind::Int,
        a_ast::TypeKind::Float => bir_ast::TypeKind::Float,
        a_ast::TypeKind::String => bir_ast::TypeKind::String,
        a_ast::TypeKind::Bool => bir_ast::TypeKind::Bool,
        a_ast::TypeKind::Void => bir_ast::TypeKind::Void,
    }
}

proof fn lemma_lowers_exprs_frame<'src>(
    os1: Seq<bir_ast::Expr<'src>>,
    os2: Seq<bir_ast::Expr<'src>>,
    es: Seq<a_ast::Expr<'src>>,
    n: int,
    c: nat,
    m: Set<Seq<char>>,
)
    requires
        0 <= n <= os1.len(),
        n <= os2.len(),
        forall|j: int| 0 <= j < n ==> os1[j] == os2[j],
    ensures
        lowers_exprs(os1, es, n, c, m) == lowers_exprs(os2, es, n, c, m),
    decreases n,
{
    if n > 0 {
        lemma_lowers_exprs_frame(os1, os2, es, n - 1, c, m);
    }
}

proof fn lemma_lowers_params_frame<'src>(
    os1: Seq<bir_ast::Param<'src>>,
    os2: Seq<bir_ast::Param<'src>>,
    ps: Seq<a_ast::Param<'src>>,
    n: int,
    c: nat,
    m: Set<Seq<char>>,
)
    requires
        0 <= n <= os1.len(),
        n <= os2.len(),
        forall|j: int| 0 <= j < n ==> os1[j] == os2[j],
    ensures
        lowers_params(os1, ps, n, c, m) == lowers_params(os2, ps, n, c, m),
    decreases n,
{
    if n > 0 {
        lemma_lowers_params_frame(os1, os2, ps, n - 1, c, m);
    }
}

proof fn lemma_lowers_stmts_frame<'src>(
    os1: Seq<bir_ast::Statement<'src>>,
    os2: Seq<bir_ast::Statement<'src>>,
    ss: Seq<a_ast::Statement<'src>>,
    n: int,
    c: nat,
    m: Set<Seq<char>>,
)
    requires
        0 <= n <= os1.len(),
        n <= os2.len(),
        forall|j: int| 0 <= j < n ==> os1[j] == os2[j],
    ensures
        lowers_stmts(os1, ss, n, c, m) == lowers_stmts(os2, ss, n, c, m),
    decreases n,
{
    if n > 0 {
        lemma_lowers_stmts_frame(os1, os2, ss, n - 1, c, m);
    }
}

proof fn lemma_lowers_decls_frame<'src>(
    os1: Seq<bir_ast::Declaration<'src>>,
    os2: Seq<bir_ast::Declaration<'src>>,
    ds: Seq<a_ast::Declaration<'src>>,
    n: int,
)
    requires
        0 <= n <= os1.len(),
        n <= os2.len(),
        forall|j: int| 0 <= j < n ==> os1[j] == os2[j],
    ensures
        lowers_decls(os1, ds, n) == lowers_decls(os2, ds, n),
    decreases n,
{
    if n > 0 {
        lemma_lowers_decls_frame(os1, os2, ds, n - 1);
    }
}

/// The counts of a prefix never exceed the count of the whole.
proof fn lemma_count_exprs_prefix<'src>(es: Seq<a_ast::Expr<'src>>, i: int, n: int)
    requires
        0 <= i <= n <= es.len(),
    ensures
        count_exprs(es, i) <= count_exprs(es, n),
        i < n ==> count_exprs(es, i) + count_expr(es[i]) <= count_exprs(es, n),
    decreases n,
{
    if n > i {
        lemma_count_exprs_prefix(es, i, n - 1);
    }
}

proof fn lemma_count_params_prefix<'src>(ps: Seq<a_ast::Param<'src>>, i: int, n: int)
    requires
        0 <= i <= n <= ps.len(),
    ensures
        count_params(ps, i) <= count_params(ps, n),
    decreases n,
{
    if n > i {
        lemma_count_params_prefix(ps, i, n - 1);
    }
}

proof fn lemma_count_stmts_prefix<'src>(ss: Seq<a_ast::Statement<'src>>, i: int, n: int)
    requires
        0 <= i <= n <= ss.len(),
    ensures
        count_stmts(ss, i) <= count_stmts(ss, n),
    decreases n,
{
    if n > i {
        lemma_count_stmts_prefix(ss, i, n - 1);
    }
}

proof fn lemma_supported_exprs_prefix<'src>(es: Seq<a_ast::Expr<'src>>, i: int, n: int)
    requires
        0 <= i < n <= es.len(),
        supported_exprs(es, n),
    ensures
        supported_expr(es[i]),
    decreases n,
{
    if n > i + 1 {
        lemma_supported_exprs_prefix(es, i, n - 1);
    }
}

proof fn lemma_supported_params_prefix<'src>(ps: Seq<a_ast::Param<'src>>, i: int, n: int)
    requires
        0 <= i < n <= ps.len(),
        supported_params(ps, n),
    ensures
        ps[i].default matches Some(d) ==> supported_expr(d),
    decreases n,
{
    if n > i + 1 {
        lemma_supported_params_prefix(ps, i, n - 1);
    }
}

proof fn lemma_supported_stmts_prefix<'src>(ss: Seq<a_ast::Statement<'src>>, i: int, n: int)
    requires
        0 <= i < n <= ss.len(),
        supported_stmts(ss, n),
    ensures
        supported_stmt(ss[i]),
    decreases n,
{
    if n > i + 1 {
        lemma_supported_stmts_prefix(ss, i, n - 1);
    }
}

proof fn lemma_count_decls_prefix<'src>(ds: Seq<a_ast::Declaration<'src>>, i: int, n: int)
    requires
        0 <= i <= n <= ds.len(),
    ensures
        count_decls(ds, i) <= count_decls(ds, n),
    decreases n,
{
    if n > i {
        lemma_count_decls_prefix(ds, i, n - 1);
    }
}

struct BirConverter {
    closure_counter: usize,
    /// Variables declared with `let mut` in the current scope
    mutable_vars: Vec<String>,
}

impl BirConverter {
    spec fn mutables(&self) -> Set<Seq<char>> {
        strs_set(self.mutable_vars@)
    }

    fn new() -> (c: Self)
        ensures
            c.closure_counter == 0,
            c.mutables() == Set::<Seq<char>>::empty(),
    {
        let c = Self { closure_counter: 0, mutable_vars: Vec::new() };
        assert(c.mutables() =~= Set::<Seq<char>>::empty());
        c
    }

    fn next_closure_name(&mut self) -> (r: String)
        requires
            old(self).closure_counter < usize::MAX,
        ensures
            r@ == closure_name(old(self).closure_counter as nat),
            final(self).closure_counter == old(self).closure_counter + 1,
            final(self).mutable_vars == old(self).mutable_vars,
    {
        let id = self.closure_counter;
        self.closure_counter = self.closure_counter + 1;
        concat("__closure_", usize_text(id).as_str())
    }

    fn visit_params<'src>(&mut self, params: &Vec<a_ast::Param<'src>>) -> (r: Vec<bir_ast::Param<'src>>)
        requires
            supported_params(params@, params@.len() as int),
            old(self).closure_counter + count_params(params@, params@.len() as int) <= usize::MAX,
        ensures
            final(self).closure_counter == old(self).closure_counter + count_params(params@, params@.len() as int),
            final(self).mutables() == old(self).mutables(),
            r@.len() == params@.len(),
            lowers_params(r@, params@, params@.len() as int, old(self).closure_counter as nat, old(self).mutables()),
        decreases params, 0int,
    {
        let ghost c0 = self.closure_counter as nat;
        let ghost m0 = self.mutables();
        let ghost ps = params@;
        let mut out: Vec<bir_ast::Param<'src>> = Vec::new();
        let mut i: usize = 0;
        while i < params.len()
            invariant
                0 <= i <= ps.len(),
                ps == params@,
                supported_params(ps, ps.len() as int),
                c0 + count_params(ps, ps.len() as int) <= usize::MAX,
                self.closure_counter == c0 + count_params(ps, i as int),
                self.mutables() == m0,
                out@.len() == i,
                lowers_params(out@, ps, i as int, c0, m0),
            decreases ps.len() - i,
        {
            proof {
                lemma_supported_params_prefix(ps, i as int, ps.len() as int);
                lemma_count_params_prefix(ps, i + 1, ps.len() as int);
            }
            let param = &params[i];
            let default = match &param.default {
                Some(def) => Some(self.visit_expr(def)),
                None => None,
            };
            let p = bir_ast::Param {
                name: bir_ast::Ident::from_analyzer(param.name),
                ty: visit_type(&param.ty.kind),
                default,
            };
            proof {
                lemma_lowers_params_frame(out@, out@.push(p), ps, i as int, c0, m0);
            }
            out.push(p);
            i = i + 1;
        }
        out
    }

    fn visit_function<'src>(&mut self, function: &a_ast::Function<'src>) -> (r: bir_ast::Function<'src>)
        requires
            supported_function(*function),
            old(self).closure_counter + count_function(*function) <= usize::MAX,
        ensures
            final(self).closure_counter == old(self).closure_counter + count_function(*function),
            final(self).mutables() == old(self).mutables(),
            lowers_function(r, *function, old(self).closure_counter as nat),
        decreases function, 0int,
    {
        let outer = copy_strs(&self.mutable_vars);
        self.mutable_vars = Vec::new();
        assert(self.mutables() =~= Set::<Seq<char>>::empty());
        let params = self.visit_params(&function.params);
        let body = self.visit_block(&function.body);
        self.mutable_vars = outer;
        bir_ast::Function {
            params,
            ret_ty: visit_type(&function.ret_ty),
            body,
            public: function.vis == Vis::Public,
            name: String::from_str(function.name.as_str()),
        }
    }

    #[verifier::loop_isolation(false)]
    fn visit_block<'src>(&mut self, block: &a_ast::Block<'src>) -> (r: bir_ast::Block<'src>)
        requires
            supported_block(*block),
            old(self).closure_counter + count_block(*block) <= usize::MAX,
        ensures
            final(self).closure_counter == old(self).closure_counter + count_block(*block),
            final(self).mutables() == old(self).mutables(),
            lowers_block(r, *block, old(self).closure_counter as nat, old(self).mutables()),
        decreases block, 0int,
    {
        let ghost c0 = self.closure_counter as nat;
        let ghost m0 = self.mutables();
        let ghost ss = block.statements@;
        let outer = copy_strs(&self.mutable_vars);
        let mut statements: Vec<bir_ast::Statement<'src>> = Vec::new();
        let mut i: usize = 0;
        while i < block.statements.len()
            invariant
                0 <= i <= ss.len(),
                self.closure_counter == c0 + count_stmts(ss, i as int),
                self.mutables() == mut_stmts(ss, i as int, m0),
                statements@.len() == i,
                lowers_stmts(statements@, ss, i as int, c0, m0),
            decreases ss.len() - i,
        {
            proof {
                lemma_supported_stmts_prefix(ss, i as int, ss.len() as int);
                lemma_count_stmts_prefix(ss, i + 1, ss.len() as int);
            }
            let s = self.visit_statement(&block.statements[i]);
            proof {
                lemma_lowers_stmts_frame(statements@, statements@.push(s), ss, i as int, c0, m0);
            }
            statements.push(s);
            i = i + 1;
        }
        self.mutable_vars = outer;
        bir_ast::Block { statements }
    }

    fn visit_statement<'src>(&mut self, statement: &a_ast::Statement<'src>) -> (r: bir_ast::Statement<'src>)
        requires
            supported_stmt(*statement),
            old(self).closure_counter + count_stmt(*statement) <= usize::MAX,
        ensures
            final(self).closure_counter == old(self).closure_counter + count_stmt(*statement),
            final(self).mutables() == mut_stmt(*statement, old(self).mutables()),
            lowers_stmt(r, *statement, old(self).closure_counter as nat, old(self).mutables()),
        decreases statement, 2int,
    {
        match statement {
            a_ast::Statement::Let { name, expr, mutable, .. } => {
                if *mutable {
                    insert_str(&mut self.mutable_vars, name.inner);
                }
                bir_ast::Statement::Let {
                    name: bir_ast::Ident::from_analyzer(*name),
                    expr: self.visit_expr(expr),
                    mutable: *mutable,
                }
            },
            a_ast::Statement::Assign { name, expr, .. } => bir_ast::Statement::Assign {
                name: bir_ast::Ident::from_analyzer(*name),
                expr: self.visit_expr(expr),
            },
            a_ast::Statement::Return { expr, .. } => bir_ast::Statement::Return {
                expr: match expr {
                    Some(expr) => Some(self.visit_expr(expr)),
                    None => None,
                },
            },
            a_ast::Statement::Function(function) => bir_ast::Statement::Function(
                self.visit_function(function),
            ),
            a_ast::Statement::Expr(expr) => bir_ast::Statement::Expr(self.visit_expr(expr)),
            a_ast::Statement::ForLoop { cond, block, .. } => {
                let cond = match cond {
                    Some(cond) => Some(self.visit_expr(cond)),
                    None => None,
                };
                bir_ast::Statement::ForLoop { cond, block: self.visit_block(block) }
            },
            a_ast::Statement::Break { .. } => bir_ast::Statement::Break,
            a_ast::Statement::Continue { .. } => bir_ast::Statement::Continue,
            _ => vstd::pervasive::unreached(),
        }
    }

    #[verifier::loop_isolation(false)]
    fn visit_exprs<'src>(&mut self, exprs: &Vec<a_ast::Expr<'src>>) -> (r: Vec<bir_ast::Expr<'src>>)
        requires
            supported_exprs(exprs@, exprs@.len() as int),
            old(self).closure_counter + count_exprs(exprs@, exprs@.len() as int) <= usize::MAX,
        ensures
            final(self).closure_counter == old(self).closure_counter + count_exprs(exprs@, exprs@.len() as int),
            final(self).mutables() == old(self).mutables(),
            r@.len() == exprs@.len(),
            lowers_exprs(r@, exprs@, exprs@.len() as int, old(self).closure_counter as nat, old(self).mutables()),
        decreases exprs, 0int,
    {
        let ghost c0 = self.closure_counter as nat;
        let ghost m0 = self.mutables();
        let ghost es = exprs@;
        let mut out: Vec<bir_ast::Expr<'src>> = Vec::new();
        let mut i: usize = 0;
        while i < exprs.len()
            invariant
                0 <= i <= es.len(),
                self.closure_counter == c0 + count_exprs(es, i as int),
                self.mutables() == m0,
                out@.len() == i,
                lowers_exprs(out@, es, i as int, c0, m0),
            decreases es.len() - i,
        {
            proof {
                lemma_supported_exprs_prefix(es, i as int, es.len() as int);
                lemma_count_exprs_prefix(es, i as int, es.len() as int);
            }
            let e = self.visit_expr(&exprs[i]);
            proof {
                lemma_lowers_exprs_frame(out@, out@.push(e), es, i as int, c0, m0);
            }
            out.push(e);
            i = i + 1;
        }
        out
    }

    fn visit_expr<'src>(&mut self, expr: &a_ast::Expr<'src>) -> (r: bir_ast::Expr<'src>)
        requires
            supported_expr(*expr),
            old(self).closure_counter + count_expr(*expr) <= usize::MAX,
        ensures
            final(self).closure_counter == old(self).closure_counter + count_expr(*expr),
            final(self).mutables() == old(self).mutables(),
            lowers_expr(r, *expr, old(self).closure_counter as nat, old(self).mutables()),
        decreases expr, 0int,
    {
        match expr {
            a_ast::Expr::IntLiteral(i) => bir_ast::Expr::IntLiteral(*i),
            a_ast::Expr::FloatLiteral(f) => bir_ast::Expr::FloatLiteral(*f),
            a_ast::Expr::BoolLiteral(b) => bir_ast::Expr::BoolLiteral(*b),
            a_ast::Expr::StringLiteral(s) => bir_ast::Expr::StringLiteral(*s),
            a_ast::Expr::StringInterpolation(exprs) => bir_ast::Expr::StringInterpolation(
                self.visit_exprs(exprs),
            ),
            a_ast::Expr::Ident { ident, ty } => bir_ast::Expr::Ident {
                ident: bir_ast::Ident::from_analyzer(*ident),
                ty: visit_type(ty),
            },
            a_ast::Expr::Binary { op, left, right, ty } => {
                let l = self.visit_expr(left);
                let r = self.visit_expr(right);
                bir_ast::Expr::Binary {
                    op: bir_ast::BinaryOp::from_analyzer(*op),
                    ty: visit_type(ty),
                    left: Box::new(l),
                    right: Box::new(r),
                }
            },
            a_ast::Expr::Call { call, ty } => bir_ast::Expr::Call {
                call: bir_ast::Call {
                    callee: String::from_str(call.callee.as_str()),
                    args: self.visit_exprs(&call.args),
                },
                ty: visit_type(ty),
            },
            a_ast::Expr::Closure(closure) => {
                let params = self.visit_params(&closure.params);
                let body = self.visit_block(&closure.body);
                let ghost m_after = self.mutables();
                // Captured variables: idents in the body that are not params or
                // variables defined within the closure body.
                let mut local_vars: Vec<String> = Vec::new();
                let mut k: usize = 0;
                while k < params.len()
                    invariant
                        0 <= k <= params@.len(),
                        local_vars@.len() == k,
                        forall|j: int| 0 <= j < k ==> local_vars@[j]@ == params@[j].name.inner@,
                    decreases params@.len() - k,
                {
                    local_vars.push(String::from_str(params[k].name.inner));
                    k = k + 1;
                }
                proof {
                    assert forall|s: Seq<char>| strs_set(local_vars@).contains(s) <==> param_names(params@).contains(s) by {
                        if strs_set(local_vars@).contains(s) {
                            let j = choose|j: int| 0 <= j < local_vars@.len() && #[trigger] local_vars@[j]@ == s;
                            assert(params@[j].name.inner@ == s);
                        }
                        if param_names(params@).contains(s) {
                            let j = choose|j: int| 0 <= j < params@.len() && #[trigger] params@[j].name.inner@ == s;
                            assert(local_vars@[j]@ == s);
                        }
                    }
                    assert(strs_set(local_vars@) =~= param_names(params@));
                }
                let mut captured_idents: Vec<(String, bir_ast::TypeKind<'src>)> = Vec::new();
                assert(types_map(captured_idents@) =~= Map::<Seq<char>, bir_ast::TypeKind<'src>>::empty());
                collect_idents_in_block(&body, &mut local_vars, &mut captured_idents);
                let ghost free = types_map(captured_idents@);
                let captures = self.captures_from(&captured_idents);
                let mangled_name = self.next_closure_name();
                bir_ast::Expr::Closure {
                    mangled_name,
                    ret_ty: visit_type(&closure.ret_ty),
                    body,
                    params,
                    captures,
                }
            },
            _ => vstd::pervasive::unreached(),
        }
    }

    /// Each captured name once, with its latest type and whether it was declared mutable.
    fn captures_from<'src>(&self, captured: &Vec<(String, bir_ast::TypeKind<'src>)>) -> (r: Vec<(String, bir_ast::TypeKind<'src>, bool)>)
        ensures
            captures_of(r@, types_map(captured@), self.mutables()),
    {
        let ghost free = types_map(captured@);
        let mut out: Vec<(String, bir_ast::TypeKind<'src>, bool)> = Vec::new();
        let mut i: usize = 0;
        while i < captured.len()
            invariant
                0 <= i <= captured@.len(),
                free == types_map(captured@),
                forall|a: int, b: int| 0 <= a < b < out@.len() ==> out@[a].0@ != out@[b].0@,
                forall|a: int|
                    0 <= a < out@.len() ==> free.contains_key(#[trigger] out@[a].0@) && out@[a].1
                        == free[out@[a].0@] && out@[a].2 == self.mutables().contains(out@[a].0@),
                forall|j: int| #![trigger captured@[j]] 0 <= j < i ==> exists|a: int| 0 <= a < out@.len() && #[trigger] out@[a].0@ == captured@[j].0@,
                forall|a: int| #![trigger out@[a]] 0 <= a < out@.len() ==> exists|j: int| 0 <= j < i && #[trigger] captured@[j].0@ == out@[a].0@,
            decreases captured@.len() - i,
        {
            let name = captured[i].0.as_str();
            let mut seen = false;
            let mut a: usize = 0;
            while a < out.len()
                invariant
                    0 <= a <= out@.len(),
                    !seen ==> forall|b: int| 0 <= b < a ==> out@[b].0@ != name@,
                    seen ==> exists|b: int| 0 <= b < out@.len() && #[trigger] out@[b].0@ == name@,
                decreases out@.len() - a,
            {
                if str_eq(out[a].0.as_str(), name) {
                    seen = true;
                }
                a = a + 1;
            }
            if !seen {
                proof {
                    lemma_types_map_keys(captured@, name@);
                    assert(captured@[i as int].0@ == name@);
                }
                let ty = match lookup_type(captured, name) {
                    Some(ty) => ty,
                    None => vstd::pervasive::unreached(),
                };
                let is_mutable = contains_str(&self.mutable_vars, name);
                let ghost before = out@;
                out.push((String::from_str(name), ty, is_mutable));
                proof {
                    assert forall|j: int| #![trigger captured@[j]] 0 <= j < i + 1 implies exists|a: int| 0 <= a < out@.len() && #[trigger] out@[a].0@ == captured@[j].0@ by {
                        if j < i {
                            let a = choose|a: int| 0 <= a < before.len() && #[trigger] before[a].0@ == captured@[j].0@;
                            assert(out@[a].0@ == captured@[j].0@);
                        } else {
                            assert(out@[before.len() as int].0@ == captured@[j].0@);
                        }
                    }
                    assert forall|a: int| #![trigger out@[a]] 0 <= a < out@.len() implies exists|j: int| 0 <= j < i + 1 && #[trigger] captured@[j].0@ == out@[a].0@ by {
                        if a < before.len() {
                            let j = choose|j: int| 0 <= j < i && #[trigger] captured@[j].0@ == before[a].0@;
                            assert(captured@[j].0@ == out@[a].0@);
                        } else {
                            assert(captured@[i as int].0@ == out@[a].0@);
                        }
                    }
                }
            } else {
                proof {
                    assert forall|a: int| #![trigger out@[a]] 0 <= a < out@.len() implies exists|j: int| 0 <= j < i + 1 && #[trigger] captured@[j].0@ == out@[a].0@ by {
                        let j = choose|j: int| 0 <= j < i && #[trigger] captured@[j].0@ == out@[a].0@;
                        assert(captured@[j].0@ == out@[a].0@);
                    }
                }
            }
            i = i + 1;
        }
        proof {
            assert forall|k: Seq<char>| free.contains_key(k) implies exists|a: int| 0 <= a < out@.len() && #[trigger] out@[a].0@ == k by {
                lemma_types_map_keys(captured@, k);
                let j = choose|j: int| 0 <= j < captured@.len() && #[trigger] captured@[j].0@ == k;
                assert(exists|a: int| 0 <= a < out@.len() && #[trigger] out@[a].0@ == captured@[j].0@);
            }
        }
        out
    }
}

/// Lowers an analyzed program to the backend intermediate representation.
pub fn bir<'src>(program: a_ast::Program<'src>) -> (r: bir_ast::Program<'src>)
    requires
        forall|i: int| 0 <= i < program.declarations@.len() ==> supported_decl(#[trigger] program.declarations@[i]),
        count_decls(program.declarations@, program.declarations@.len() as int) <= usize::MAX,
    ensures
        r.declarations@.len() == program.declarations@.len(),
        lowers_decls(r.declarations@, program.declarations@, program.declarations@.len() as int),
{
    let mut converter = BirConverter::new();
    let ghost ds = program.declarations@;
    let mut declarations: Vec<bir_ast::Declaration<'src>> = Vec::new();
    let mut i: usize = 0;
    while i < program.declarations.len()
        invariant
            0 <= i <= ds.len(),
            ds == program.declarations@,
            forall|j: int| 0 <= j < ds.len() ==> supported_decl(#[trigger] ds[j]),
            count_decls(ds, ds.len() as int) <= usize::MAX,
            converter.closure_counter == count_decls(ds, i as int),
            converter.mutables() == Set::<Seq<char>>::empty(),
            declarations@.len() == i,
            lowers_decls(declarations@, ds, i as int),
        decreases ds.len() - i,
    {
        proof {
            lemma_count_decls_prefix(ds, i + 1, ds.len() as int);
        }
        let d = match &program.declarations[i] {
            a_ast::Declaration::Function(function) => bir_ast::Declaration::Function(
                converter.visit_function(function),
            ),
            _ => vstd::pervasive::unreached(),
        };
        proof {
            lemma_lowers_decls_frame(declarations@, declarations@.push(d), ds, i as int);
        }
        declarations.push(d);
        i = i + 1;
    }
    bir_ast::Program { declarations }
}


// ---------------------------------------------------------------------------
// Laws
// ---------------------------------------------------------------------------

proof fn lemma_digit_text(d: nat)
    requires
        d < 10,
    ensures
        digit_text(d).len() == 1,
        forall|e: nat| e < 10 && e != d ==> digit_text(e)[0] != digit_text(d)[0],
{
    reveal_strlit("0");
    reveal_strlit("1");
    reveal_strlit("2");
    reveal_strlit("3");
    reveal_strlit("4");
    reveal_strlit("5");
    reveal_strlit("6");
    reveal_strlit("7");
    reveal_strlit("8");
    reveal_strlit("9");
}

proof fn lemma_nat_text_len(n: nat)
    ensures
        nat_text(n).len() >= 1,
        n >= 10 ==> nat_text(n).len() >= 2,
    decreases n,
{
    lemma_digit_text(n % 10);
    if n >= 10 {
        lemma_nat_text_len(n / 10);
    }
}

proof fn lemma_nat_text_injective(a: nat, b: nat)
    requires
        nat_text(a) == nat_text(b),
    ensures
        a == b,
    decreases a,
{
    lemma_nat_text_len(a);
    lemma_nat_text_len(b);
    lemma_digit_text(a % 10);
    lemma_digit_text(b % 10);
    if a < 10 && b < 10 {
        assert(digit_text(a)[0] == digit_text(b)[0]);
    } else if a >= 10 && b >= 10 {
        let x = nat_text(a);
        assert(x.last() == digit_text(a % 10)[0]);
        assert(x.last() == digit_text(b % 10)[0]);
        assert(a % 10 == b % 10);
        assert(x.drop_last() =~= nat_text(a / 10));
        assert(x.drop_last() =~= nat_text(b / 10));
        lemma_nat_text_injective(a / 10, b / 10);
    }
}

/// Closures numbered differently get different names.
pub proof fn law_closure_names_distinct(a: nat, b: nat)
    requires
        a != b,
    ensures
        closure_name(a) != closure_name(b),
{
    if closure_name(a) == closure_name(b) {
        let p = "__closure_"@;
        assert(closure_name(a).subrange(p.len() as int, closure_name(a).len() as int) =~= nat_text(a));
        assert(closure_name(b).subrange(p.len() as int, closure_name(b).len() as int) =~= nat_text(b));
        lemma_nat_text_injective(a, b);
    }
}

/// A name that is local before a piece of code is never found free in it.
proof fn lemma_free_expr_keeps_locals<'src>(
    e: bir_ast::Expr<'src>,
    locals: Set<Seq<char>>,
    acc: Map<Seq<char>, bir_ast::TypeKind<'src>>,
    k: Seq<char>,
)
    requires
        locals.contains(k),
    ensures
        free_in_expr(e, locals, acc).contains_key(k) ==> acc.contains_key(k),
    decreases e, 0int,
{
    match e {
        bir_ast::Expr::Binary { left, right, .. } => {
            lemma_free_expr_keeps_locals(*left, locals, acc, k);
            lemma_free_expr_keeps_locals(*right, locals, free_in_expr(*left, locals, acc), k);
        },
        bir_ast::Expr::Unary { expr, .. } => lemma_free_expr_keeps_locals(*expr, locals, acc, k),
        bir_ast::Expr::Call { call, .. } => lemma_free_exprs_keeps_locals(
            call.args@,
            call.args@.len() as int,
            locals,
            acc,
            k,
        ),
        bir_ast::Expr::StringInterpolation(parts) => lemma_free_exprs_keeps_locals(
            parts@,
            parts@.len() as int,
            locals,
            acc,
            k,
        ),
        bir_ast::Expr::If { cond, then, else_if_blocks, else_block, .. } => {
            let a1 = free_in_expr(*cond, locals, acc);
            lemma_free_expr_keeps_locals(*cond, locals, acc, k);
            lemma_free_block_keeps_locals(then, locals, a1, k);
            let a2 = free_in_block(then, locals, a1).1;
            lemma_free_else_ifs_keeps_locals(else_if_blocks@, else_if_blocks@.len() as int, locals, a2, k);
            let a3 = free_in_else_ifs(else_if_blocks@, else_if_blocks@.len() as int, locals, a2);
            if let Some(b) = else_block {
                lemma_free_block_keeps_locals(b, locals, a3, k);
            }
        },
        _ => {},
    }
}

proof fn lemma_free_else_ifs_keeps_locals<'src>(
    ps: Seq<(bir_ast::Expr<'src>, bir_ast::Block<'src>)>,
    n: int,
    locals: Set<Seq<char>>,
    acc: Map<Seq<char>, bir_ast::TypeKind<'src>>,
    k: Seq<char>,
)
    requires
        locals.contains(k),
    ensures
        free_in_else_ifs(ps, n, locals, acc).contains_key(k) ==> acc.contains_key(k),
    decreases ps, n,
{
    if 0 < n <= ps.len() {
        lemma_free_else_ifs_keeps_locals(ps, n - 1, locals, acc, k);
        let a1 = free_in_else_ifs(ps, n - 1, locals, acc);
        lemma_free_expr_keeps_locals(ps[n - 1].0, locals, a1, k);
        lemma_free_block_keeps_locals(ps[n - 1].1, locals, free_in_expr(ps[n - 1].0, locals, a1), k);
    }
}

proof fn lemma_free_exprs_keeps_locals<'src>(
    es: Seq<bir_ast::Expr<'src>>,
    n: int,
    locals: Set<Seq<char>>,
    acc: Map<Seq<char>, bir_ast::TypeKind<'src>>,
    k: Seq<char>,
)
    requires
        locals.contains(k),
    ensures
        free_in_exprs(es, n, locals, acc).contains_key(k) ==> acc.contains_key(k),
    decreases es, n,
{
    if 0 < n <= es.len() {
        lemma_free_exprs_keeps_locals(es, n - 1, locals, acc, k);
        lemma_free_expr_keeps_locals(es[n - 1], locals, free_in_exprs(es, n - 1, locals, acc), k);
    }
}

proof fn lemma_free_block_keeps_locals<'src>(
    b: bir_ast::Block<'src>,
    locals: Set<Seq<char>>,
    acc: Map<Seq<char>, bir_ast::TypeKind<'src>>,
    k: Seq<char>,
)
    requires
        locals.contains(k),
    ensures
        free_in_block(b, locals, acc).0.contains(k),
        free_in_block(b, locals, acc).1.contains_key(k) ==> acc.contains_key(k),
    decreases b, 0int,
{
    lemma_free_stmts_keeps_locals(b.statements@, b.statements@.len() as int, locals, acc, k);
}

proof fn lemma_free_stmts_keeps_locals<'src>(
    ss: Seq<bir_ast::Statement<'src>>,
    n: int,
    locals: Set<Seq<char>>,
    acc: Map<Seq<char>, bir_ast::TypeKind<'src>>,
    k: Seq<char>,
)
    requires
        locals.contains(k),
    ensures
        free_in_stmts(ss, n, locals, acc).0.contains(k),
        free_in_stmts(ss, n, locals, acc).1.contains_key(k) ==> acc.contains_key(k),
    decreases ss, n,
{
    if 0 < n <= ss.len() {
        lemma_free_stmts_keeps_locals(ss, n - 1, locals, acc, k);
        let (l1, a1) = free_in_stmts(ss, n - 1, locals, acc);
        lemma_free_stmt_keeps_locals(ss[n - 1], l1, a1, k);
    }
}

proof fn lemma_free_stmt_keeps_locals<'src>(
    s: bir_ast::Statement<'src>,
    locals: Set<Seq<char>>,
    acc: Map<Seq<char>, bir_ast::TypeKind<'src>>,
    k: Seq<char>,
)
    requires
        locals.contains(k),
    ensures
        free_in_stmt(s, locals, acc).0.contains(k),
        free_in_stmt(s, locals, acc).1.contains_key(k) ==> acc.contains_key(k),
    decreases s, 0int,
{
    match s {
        bir_ast::Statement::Let { expr, .. } => lemma_free_expr_keeps_locals(expr, locals, acc, k),
        bir_ast::Statement::Assign { expr, .. } => lemma_free_expr_keeps_locals(expr, locals, acc, k),
        bir_ast::Statement::Return { expr } => if let Some(e) = expr {
            lemma_free_expr_keeps_locals(e, locals, acc, k);
        },
        bir_ast::Statement::Expr(e) => lemma_free_expr_keeps_locals(e, locals, acc, k),
        bir_ast::Statement::ForLoop { cond, block } => {
            let a1 = match cond {
                Some(c) => free_in_expr(c, locals, acc),
                None => acc,
            };
            if let Some(c) = cond {
                lemma_free_expr_keeps_locals(c, locals, acc, k);
            }
            lemma_free_block_keeps_locals(block, locals, a1, k);
        },
        _ => {},
    }
}

/// A closure never captures one of its own parameters: the captures of a
/// lowered closure are variables of the enclosing scopes only.
pub proof fn law_closures_do_not_capture_parameters<'src>(
    out: bir_ast::Expr<'src>,
    e: a_ast::Expr<'src>,
    c: nat,
    m: Set<Seq<char>>,
)
    requires
        e is Closure,
        lowers_expr(out, e, c, m),
    ensures
        out matches bir_ast::Expr::Closure { params, captures, .. } && forall|i: int|
            0 <= i < captures@.len() ==> !param_names(params@).contains(#[trigger] captures@[i].0@),
{
    if let bir_ast::Expr::Closure { params, body, captures, .. } = out {
        let locals = param_names(params@);
        let free = free_in_block(body, locals, Map::empty()).1;
        assert forall|i: int| 0 <= i < captures@.len() implies !locals.contains(#[trigger] captures@[i].0@) by {
            let k = captures@[i].0@;
            assert(free.contains_key(k));
            if locals.contains(k) {
                lemma_free_block_keeps_locals(body, locals, Map::empty(), k);
            }
        }
    }
}

// ---------------------------------------------------------------------------
// What a closure captures
// ---------------------------------------------------------------------------

/// Whether an expression uses the variable `x` directly: as itself, in an
/// operand, an argument, a part of an interpolation, or the condition of an
/// `if` (not inside a block or a nested closure).
pub open spec fn uses_var<'src>(e: bir_ast::Expr<'src>, x: Seq<char>) -> bool
    decreases e, 0int,
{
    match e {
        bir_ast::Expr::Ident { ident, .. } => ident.inner@ == x,
        bir_ast::Expr::Binary { left, right, .. } => uses_var(*left, x) || uses_var(*right, x),
        bir_ast::Expr::Unary { expr, .. } => uses_var(*expr, x),
        bir_ast::Expr::Call { call, .. } => any_uses_var(call.args@, call.args@.len() as int, x),
        bir_ast::Expr::StringInterpolation(parts) => any_uses_var(parts@, parts@.len() as int, x),
        bir_ast::Expr::If { cond, .. } => uses_var(*cond, x),
        _ => false,
    }
}

/// Whether one of the first `n` expressions uses `x` directly.
pub open spec fn any_uses_var<'src>(es: Seq<bir_ast::Expr<'src>>, n: int, x: Seq<char>) -> bool
    decreases es, n,
{
    if n <= 0 || n > es.len() {
        false
    } else {
        any_uses_var(es, n - 1, x) || uses_var(es[n - 1], x)
    }
}

/// Whether a statement uses `x` directly in its expression: the value of a
/// `let`, an assignment or an expression statement, the value a `return`
/// gives back, or the condition of a loop.
pub open spec fn stmt_uses_var<'src>(s: bir_ast::Statement<'src>, x: Seq<char>) -> bool {
    match s {
        bir_ast::Statement::Let { expr, .. } => uses_var(expr, x),
        bir_ast::Statement::Assign { expr, .. } => uses_var(expr, x),
        bir_ast::Statement::Expr(e) => uses_var(e, x),
        bir_ast::Statement::Return { expr } => match expr {
            Some(e) => uses_var(e, x),
            None => false,
        },
        bir_ast::Statement::ForLoop { cond, .. } => match cond {
            Some(c) => uses_var(c, x),
            None => false,
        },
        _ => false,
    }
}

/// Whether one of the first `n` statements declares `x`: a `let` of that
/// name, or a loop whose body declares it.
pub open spec fn declares_in_stmts<'src>(ss: Seq<bir_ast::Statement<'src>>, n: int, x: Seq<char>) -> bool
    decreases ss, n,
{
    if n <= 0 || n > ss.len() {
        false
    } else {
        declares_in_stmts(ss, n - 1, x) || declares_in_stmt(ss[n - 1], x)
    }
}

/// Whether a statement declares `x`.
pub open spec fn declares_in_stmt<'src>(s: bir_ast::Statement<'src>, x: Seq<char>) -> bool
    decreases s, 0int,
{
    match s {
        bir_ast::Statement::Let { name, .. } => name.inner@ == x,
        bir_ast::Statement::ForLoop { block, .. } => declares_in_block(block, x),
        _ => false,
    }
}

/// Whether a block declares `x` among its statements.
pub open spec fn declares_in_block<'src>(b: bir_ast::Block<'src>, x: Seq<char>) -> bool
    decreases b, 0int,
{
    declares_in_stmts(b.statements@, b.statements@.len() as int, x)
}

proof fn lemma_free_expr_grows<'src>(
    e: bir_ast::Expr<'src>,
    locals: Set<Seq<char>>,
    acc: Map<Seq<char>, bir_ast::TypeKind<'src>>,
    k: Seq<char>,
)
    requires
        acc.contains_key(k),
    ensures
        free_in_expr(e, locals, acc).contains_key(k),
    decreases e, 0int,
{
    match e {
        bir_ast::Expr::Binary { left, right, .. } => {
            lemma_free_expr_grows(*left, locals, acc, k);
            lemma_free_expr_grows(*right, locals, free_in_expr(*left, locals, acc), k);
        },
        bir_ast::Expr::Unary { expr, .. } => lemma_free_expr_grows(*expr, locals, acc, k),
        bir_ast::Expr::Call { call, .. } => lemma_free_exprs_grows(call.args@, call.args@.len() as int, locals, acc, k),
        bir_ast::Expr::StringInterpolation(parts) => lemma_free_exprs_grows(parts@, parts@.len() as int, locals, acc, k),
        bir_ast::Expr::If { cond, then, else_if_blocks, else_block, .. } => {
            lemma_free_expr_grows(*cond, locals, acc, k);
            let a1 = free_in_expr(*cond, locals, acc);
            lemma_free_block_grows(then, locals, a1, k);
            let a2 = free_in_block(then, locals, a1).1;
            lemma_free_else_ifs_grows(else_if_blocks@, else_if_blocks@.len() as int, locals, a2, k);
            let a3 = free_in_else_ifs(else_if_blocks@, else_if_blocks@.len() as int, locals, a2);
            if let Some(b) = else_block {
                lemma_free_block_grows(b, locals, a3, k);
            }
        },
        _ => {},
    }
}

proof fn lemma_free_exprs_grows<'src>(
    es: Seq<bir_ast::Expr<'src>>,
    n: int,
    locals: Set<Seq<char>>,
    acc: Map<Seq<char>, bir_ast::TypeKind<'src>>,
    k: Seq<char>,
)
    requires
        acc.contains_key(k),
    ensures
        free_in_exprs(es, n, locals, acc).contains_key(k),
    decreases es, n,
{
    if 0 < n <= es.len() {
        lemma_free_exprs_grows(es, n - 1, locals, acc, k);
        lemma_free_expr_grows(es[n - 1], locals, free_in_exprs(es, n - 1, locals, acc), k);
    }
}

proof fn lemma_free_else_ifs_grows<'src>(
    ps: Seq<(bir_ast::Expr<'src>, bir_ast::Block<'src>)>,
    n: int,
    locals: Set<Seq<char>>,
    acc: Map<Seq<char>, bir_ast::TypeKind<'src>>,
    k: Seq<char>,
)
    requires
        acc.contains_key(k),
    ensures
        free_in_else_ifs(ps, n, locals, acc).contains_key(k),
    decreases ps, n,
{
    if 0 < n <= ps.len() {
        lemma_free_else_ifs_grows(ps, n - 1, locals, acc, k);
        let a1 = free_in_else_ifs(ps, n - 1, locals, acc);
        lemma_free_expr_grows(ps[n - 1].0, locals, a1, k);
        lemma_free_block_grows(ps[n - 1].1, locals, free_in_expr(ps[n - 1].0, locals, a1), k);
    }
}

proof fn lemma_free_block_grows<'src>(
    b: bir_ast::Block<'src>,
    locals: Set<Seq<char>>,
    acc: Map<Seq<char>, bir_ast::TypeKind<'src>>,
    k: Seq<char>,
)
    requires
        acc.contains_key(k),
    ensures
        free_in_block(b, locals, acc).1.contains_key(k),
    decreases b, 0int,
{
    lemma_free_stmts_grows(b.statements@, b.statements@.len() as int, locals, acc, k);
}

proof fn lemma_free_stmts_grows<'src>(
    ss: Seq<bir_ast::Statement<'src>>,
    n: int,
    locals: Set<Seq<char>>,
    acc: Map<Seq<char>, bir_ast::TypeKind<'src>>,
    k: Seq<char>,
)
    requires
        acc.contains_key(k),
    ensures
        free_in_stmts(ss, n, locals, acc).1.contains_key(k),
    decreases ss, n,
{
    if 0 < n <= ss.len() {
        lemma_free_stmts_grows(ss, n - 1, locals, acc, k);
        let (l1, a1) = free_in_stmts(ss, n - 1, locals, acc);
        lemma_free_stmt_grows(ss[n - 1], l1, a1, k);
    }
}

proof fn lemma_free_stmt_grows<'src>(
    s: bir_ast::Statement<'src>,
    locals: Set<Seq<char>>,
    acc: Map<Seq<char>, bir_ast::TypeKind<'src>>,
    k: Seq<char>,
)
    requires
        acc.contains_key(k),
    ensures
        free_in_stmt(s, locals, acc).1.contains_key(k),
    decreases s, 0int,
{
    match s {
        bir_ast::Statement::Let { expr, .. } => lemma_free_expr_grows(expr, locals, acc, k),
        bir_ast::Statement::Assign { expr, .. } => lemma_free_expr_grows(expr, locals, acc, k),
        bir_ast::Statement::Return { expr } => if let Some(e) = expr {
            lemma_free_expr_grows(e, locals, acc, k);
        },
        bir_ast::Statement::Expr(e) => lemma_free_expr_grows(e, locals, acc, k),
        bir_ast::Statement::ForLoop { cond, block } => {
            let a1 = match cond {
                Some(c) => free_in_expr(c, locals, acc),
                None => acc,
            };
            if let Some(c) = cond {
                lemma_free_expr_grows(c, locals, acc, k);
            }
            lemma_free_block_grows(block, locals, a1, k);
        },
        _ => {},
    }
}

/// A variable that an expression uses and that is not local is found free
/// in it.
proof fn lemma_used_is_free<'src>(
    e: bir_ast::Expr<'src>,
    locals: Set<Seq<char>>,
    acc: Map<Seq<char>, bir_ast::TypeKind<'src>>,
    x: Seq<char>,
)
    requires
        uses_var(e, x),
        !locals.contains(x),
    ensures
        free_in_expr(e, locals, acc).contains_key(x),
    decreases e, 0int,
{
    match e {
        bir_ast::Expr::Binary { left, right, .. } => {
            if uses_var(*left, x) {
                lemma_used_is_free(*left, locals, acc, x);
                lemma_free_expr_grows(*right, locals, free_in_expr(*left, locals, acc), x);
            } else {
                lemma_used_is_free(*right, locals, free_in_expr(*left, locals, acc), x);
            }
        },
        bir_ast::Expr::Unary { expr, .. } => lemma_used_is_free(*expr, locals, acc, x),
        bir_ast::Expr::Call { call, .. } => lemma_any_used_is_free(call.args@, call.args@.len() as int, locals, acc, x),
        bir_ast::Expr::StringInterpolation(parts) => lemma_any_used_is_free(parts@, parts@.len() as int, locals, acc, x),
        bir_ast::Expr::If { cond, then, else_if_blocks, else_block, .. } => {
            lemma_used_is_free(*cond, locals, acc, x);
            let a1 = free_in_expr(*cond, locals, acc);
            lemma_free_block_grows(then, locals, a1, x);
            let a2 = free_in_block(then, locals, a1).1;
            lemma_free_else_ifs_grows(else_if_blocks@, else_if_blocks@.len() as int, locals, a2, x);
            let a3 = free_in_else_ifs(else_if_blocks@, else_if_blocks@.len() as int, locals, a2);
            if let Some(b) = else_block {
                lemma_free_block_grows(b, locals, a3, x);
            }
        },
        _ => {},
    }
}

proof fn lemma_any_used_is_free<'src>(
    es: Seq<bir_ast::Expr<'src>>,
    n: int,
    locals: Set<Seq<char>>,
    acc: Map<Seq<char>, bir_ast::TypeKind<'src>>,
    x: Seq<char>,
)
    requires
        any_uses_var(es, n, x),
        !locals.contains(x),
    ensures
        free_in_exprs(es, n, locals, acc).contains_key(x),
    decreases es, n,
{
    if 0 < n <= es.len() {
        let a1 = free_in_exprs(es, n - 1, locals, acc);
        if any_uses_var(es, n - 1, x) {
            lemma_any_used_is_free(es, n - 1, locals, acc, x);
            lemma_free_expr_grows(es[n - 1], locals, a1, x);
        } else {
            lemma_used_is_free(es[n - 1], locals, a1, x);
        }
    }
}

/// A variable that a statement uses and that is not local is found free in
/// it.
proof fn lemma_stmt_used_is_free<'src>(
    s: bir_ast::Statement<'src>,
    locals: Set<Seq<char>>,
    acc: Map<Seq<char>, bir_ast::TypeKind<'src>>,
    x: Seq<char>,
)
    requires
        stmt_uses_var(s, x),
        !locals.contains(x),
    ensures
        free_in_stmt(s, locals, acc).1.contains_key(x),
{
    match s {
        bir_ast::Statement::Let { expr, .. } => lemma_used_is_free(expr, locals, acc, x),
        bir_ast::Statement::Assign { expr, .. } => lemma_used_is_free(expr, locals, acc, x),
        bir_ast::Statement::Expr(e) => lemma_used_is_free(e, locals, acc, x),
        bir_ast::Statement::Return { expr } => if let Some(e) = expr {
            lemma_used_is_free(e, locals, acc, x);
        },
        bir_ast::Statement::ForLoop { cond, block } => if let Some(c) = cond {
            lemma_used_is_free(c, locals, acc, x);
            lemma_free_block_grows(block, locals, free_in_expr(c, locals, acc), x);
        },
        _ => {},
    }
}

/// The local names after some statements are the ones before them and the
/// ones they declare.
proof fn lemma_locals_only_from_declarations<'src>(
    ss: Seq<bir_ast::Statement<'src>>,
    n: int,
    locals: Set<Seq<char>>,
    acc: Map<Seq<char>, bir_ast::TypeKind<'src>>,
    x: Seq<char>,
)
    requires
        !locals.contains(x),
        !declares_in_stmts(ss, n, x),
    ensures
        !free_in_stmts(ss, n, locals, acc).0.contains(x),
    decreases ss, n,
{
    if 0 < n <= ss.len() {
        lemma_locals_only_from_declarations(ss, n - 1, locals, acc, x);
        let (l1, a1) = free_in_stmts(ss, n - 1, locals, acc);
        lemma_stmt_locals_only_from_declarations(ss[n - 1], l1, a1, x);
    }
}

proof fn lemma_stmt_locals_only_from_declarations<'src>(
    s: bir_ast::Statement<'src>,
    locals: Set<Seq<char>>,
    acc: Map<Seq<char>, bir_ast::TypeKind<'src>>,
    x: Seq<char>,
)
    requires
        !locals.contains(x),
        !declares_in_stmt(s, x),
    ensures
        !free_in_stmt(s, locals, acc).0.contains(x),
    decreases s, 0int,
{
    if let bir_ast::Statement::ForLoop { cond, block } = s {
        let a1 = match cond {
            Some(c) => free_in_expr(c, locals, acc),
            None => acc,
        };
        lemma_locals_only_from_declarations(block.statements@, block.statements@.len() as int, locals, a1, x);
    }
}

proof fn lemma_free_stmts_prefix_grows<'src>(
    ss: Seq<bir_ast::Statement<'src>>,
    j: int,
    n: int,
    locals: Set<Seq<char>>,
    acc: Map<Seq<char>, bir_ast::TypeKind<'src>>,
    x: Seq<char>,
)
    requires
        0 <= j <= n <= ss.len(),
        free_in_stmts(ss, j, locals, acc).1.contains_key(x),
    ensures
        free_in_stmts(ss, n, locals, acc).1.contains_key(x),
    decreases n,
{
    if j < n {
        lemma_free_stmts_prefix_grows(ss, j, n - 1, locals, acc, x);
        let (l1, a1) = free_in_stmts(ss, n - 1, locals, acc);
        lemma_free_stmt_grows(ss[n - 1], l1, a1, x);
    }
}

/// A block finds free every variable that one of its statements uses, when
/// the variable is neither local before the block nor declared by an earlier
/// statement of the block.
pub proof fn law_block_finds_used_variables<'src>(
    b: bir_ast::Block<'src>,
    locals: Set<Seq<char>>,
    acc: Map<Seq<char>, bir_ast::TypeKind<'src>>,
    k: int,
    x: Seq<char>,
)
    requires
        0 <= k < b.statements@.len(),
        stmt_uses_var(b.statements@[k], x),
        !locals.contains(x),
        !declares_in_stmts(b.statements@, k, x),
    ensures
        free_in_block(b, locals, acc).1.contains_key(x),
{
    let ss = b.statements@;
    lemma_locals_only_from_declarations(ss, k, locals, acc, x);
    let (l1, a1) = free_in_stmts(ss, k, locals, acc);
    lemma_stmt_used_is_free(ss[k], l1, a1, x);
    assert(free_in_stmts(ss, k + 1, locals, acc) == free_in_stmt(ss[k], l1, a1));
    lemma_free_stmts_prefix_grows(ss, k + 1, ss.len() as int, locals, acc, x);
}

/// A closure captures every variable that a statement of its body uses,
/// when the variable is neither one of its parameters nor declared by an
/// earlier statement of the body.
pub proof fn law_closure_captures_what_its_body_uses<'src>(
    out: bir_ast::Expr<'src>,
    e: a_ast::Expr<'src>,
    c: nat,
    m: Set<Seq<char>>,
    k: int,
    x: Seq<char>,
)
    requires
        e is Closure,
        lowers_expr(out, e, c, m),
    ensures
        out matches bir_ast::Expr::Closure { params, body, captures, .. } && ((0 <= k
            < body.statements@.len() && stmt_uses_var(body.statements@[k], x) && !param_names(
            params@,
        ).contains(x) && !declares_in_stmts(body.statements@, k, x)) ==> exists|i: int|
            0 <= i < captures@.len() && #[trigger] captures@[i].0@ == x),
{
    if let bir_ast::Expr::Closure { params, body, captures, .. } = out {
        if 0 <= k < body.statements@.len() && stmt_uses_var(body.statements@[k], x) && !param_names(
            params@,
        ).contains(x) && !declares_in_stmts(body.statements@, k, x) {
            law_block_finds_used_variables(body, param_names(params@), Map::empty(), k, x);
        }
    }
}

} // verus!
