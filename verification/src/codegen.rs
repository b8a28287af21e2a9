//! The pieces of code generation that the plan of each function is made
//! of: which closures need trampolines and in which order, the names and
//! linkage of generated functions, how types map to machine types, which
//! instruction implements an operator, and the bytes of a string constant.

use crate::bir_ast as ast;
use crate::utils::{concat, str_eq};
use vstd::prelude::*;
use vstd::string::*;

verus! {

// ---------------------------------------------------------------------------
// Closures of a program
// ---------------------------------------------------------------------------

/// The closures of an expression, each before the closures of its own body:
/// calls, binary expressions, interpolations and `if` (its condition, then
/// block and else block) are searched; other expressions hold none.
pub open spec fn closures_in_expr<'src>(e: ast::Expr<'src>) -> Seq<ast::Expr<'src>>
    decreases e, 0int,
{
    match e {
        ast::Expr::Closure { body, .. } => seq![e] + closures_in_block(body),
        ast::Expr::Call { call, .. } => closures_in_exprs(call.args@, call.args@.len() as int),
        ast::Expr::Binary { left, right, .. } => closures_in_expr(*left) + closures_in_expr(*right),
        ast::Expr::StringInterpolation(parts) => closures_in_exprs(parts@, parts@.len() as int),
        ast::Expr::If { cond, then, else_block, .. } => closures_in_expr(*cond) + closures_in_block(then)
            + (match else_block {
            Some(b) => closures_in_block(b),
            None => Seq::empty(),
        }),
        _ => Seq::empty(),
    }
}

pub open spec fn closures_in_exprs<'src>(es: Seq<ast::Expr<'src>>, n: int) -> Seq<ast::Expr<'src>>
    decreases es, n,
{
    if n <= 0 || n > es.len() {
        Seq::empty()
    } else {
        closures_in_exprs(es, n - 1) + closures_in_expr(es[n - 1])
    }
}

pub open spec fn closures_in_block<'src>(b: ast::Block<'src>) -> Seq<ast::Expr<'src>>
    decreases b, 0int,
{
    closures_in_stmts(b.statements@, b.statements@.len() as int)
}

pub open spec fn closures_in_stmts<'src>(ss: Seq<ast::Statement<'src>>, n: int) -> Seq<ast::Expr<'src>>
    decreases ss, n,
{
    if n <= 0 || n > ss.len() {
        Seq::empty()
    } else {
        closures_in_stmts(ss, n - 1) + closures_in_stmt(ss[n - 1])
    }
}

/// The closures of a statement: those of its expressions and of a loop's
/// body; nested function declarations are not searched.
pub open spec fn closures_in_stmt<'src>(s: ast::Statement<'src>) -> Seq<ast::Expr<'src>>
    decreases s, 0int,
{
    match s {
        ast::Statement::Let { expr, .. } => closures_in_expr(expr),
        ast::Statement::Assign { expr, .. } => closures_in_expr(expr),
        ast::Statement::Return { expr } => match expr {
            Some(e) => closures_in_expr(e),
            None => Seq::empty(),
        },
        ast::Statement::Expr(e) => closures_in_expr(e),
        ast::Statement::ForLoop { cond, block } => (match cond {
            Some(c) => closures_in_expr(c),
            None => Seq::empty(),
        }) + closures_in_block(block),
        _ => Seq::empty(),
    }
}

/// The closures in the bodies of the program's functions, in order.
pub open spec fn closures_in_decls<'src>(ds: Seq<ast::Declaration<'src>>, n: int) -> Seq<ast::Expr<'src>>
    decreases n,
{
    if n <= 0 || n > ds.len() {
        Seq::empty()
    } else {
        closures_in_decls(ds, n - 1) + (match ds[n - 1] {
            ast::Declaration::Function(f) => closures_in_block(f.body),
            _ => Seq::empty(),
        })
    }
}

/// The items of a sequence of references.
pub open spec fn derefs<'a, 'src>(v: Seq<&'a ast::Expr<'src>>) -> Seq<ast::Expr<'src>> {
    v.map_values(|e: &'a ast::Expr<'src>| *e)
}

proof fn lemma_derefs_push<'a, 'src>(v: Seq<&'a ast::Expr<'src>>, e: &'a ast::Expr<'src>)
    ensures
        derefs(v.push(e)) == derefs(v).push(*e),
{
    assert(derefs(v.push(e)) =~= derefs(v).push(*e));
}

fn collect_closures_in_block<'a, 'src>(block: &'a ast::Block<'src>, out: &mut Vec<&'a ast::Expr<'src>>)
    ensures
        derefs(final(out)@) == derefs(old(out)@) + closures_in_block(*block),
    decreases block, 0int,
{
    let ghost start = derefs(out@);
    let ghost ss = block.statements@;
    let mut i: usize = 0;
    while i < block.statements.len()
        invariant
            0 <= i <= ss.len(),
            ss == block.statements@,
            derefs(out@) == start + closures_in_stmts(ss, i as int),
        decreases ss.len() - i,
    {
        let ghost before = derefs(out@);
        collect_closures_in_statement(&block.statements[i], out);
        proof {
            assert(start + closures_in_stmts(ss, i + 1) =~= before + closures_in_stmt(ss[i as int]));
        }
        i = i + 1;
    }
}

fn collect_closures_in_statement<'a, 'src>(stmt: &'a ast::Statement<'src>, out: &mut Vec<&'a ast::Expr<'src>>)
    ensures
        derefs(final(out)@) == derefs(old(out)@) + closures_in_stmt(*stmt),
    decreases stmt, 0int,
{
    let ghost start = derefs(out@);
    match stmt {
        ast::Statement::Let { expr, .. } | ast::Statement::Assign { expr, .. } => collect_closures_in_expr(
            expr,
            out,
        ),
        ast::Statement::Return { expr: Some(expr), .. } => collect_closures_in_expr(expr, out),
        ast::Statement::Expr(expr) => collect_closures_in_expr(expr, out),
        ast::Statement::ForLoop { cond, block } => {
            if let Some(cond) = cond {
                collect_closures_in_expr(cond, out);
            }
            let ghost mid = derefs(out@);
            collect_closures_in_block(block, out);
            proof {
                assert(derefs(out@) =~= start + closures_in_stmt(*stmt));
            }
        },
        _ => {
            assert(derefs(out@) =~= start + closures_in_stmt(*stmt));
        },
    }
}

#[verifier::loop_isolation(false)]
fn collect_closures_in_expr<'a, 'src>(expr: &'a ast::Expr<'src>, out: &mut Vec<&'a ast::Expr<'src>>)
    ensures
        derefs(final(out)@) == derefs(old(out)@) + closures_in_expr(*expr),
    decreases expr, 0int,
{
    let ghost start = derefs(out@);
    match expr {
        ast::Expr::Closure { body, .. } => {
            proof {
                lemma_derefs_push(out@, expr);
            }
            out.push(expr);
            collect_closures_in_block(body, out);
            proof {
                assert(derefs(out@) =~= start + closures_in_expr(*expr));
            }
        },
        ast::Expr::Call { call, .. } => {
            let mut i: usize = 0;
            while i < call.args.len()
                invariant
                    0 <= i <= call.args@.len(),
                    derefs(out@) == start + closures_in_exprs(call.args@, i as int),
                decreases call.args@.len() - i,
            {
                let ghost before = derefs(out@);
                collect_closures_in_expr(&call.args[i], out);
                proof {
                    assert(start + closures_in_exprs(call.args@, i + 1) =~= before + closures_in_expr(
                        call.args@[i as int],
                    ));
                }
                i = i + 1;
            }
        },
        ast::Expr::Binary { left, right, .. } => {
            collect_closures_in_expr(left, out);
            collect_closures_in_expr(right, out);
            proof {
                assert(derefs(out@) =~= start + closures_in_expr(*expr));
            }
        },
        ast::Expr::StringInterpolation(parts) => {
            let mut i: usize = 0;
            while i < parts.len()
                invariant
                    0 <= i <= parts@.len(),
                    derefs(out@) == start + closures_in_exprs(parts@, i as int),
                decreases parts@.len() - i,
            {
                let ghost before = derefs(out@);
                collect_closures_in_expr(&parts[i], out);
                proof {
                    assert(start + closures_in_exprs(parts@, i + 1) =~= before + closures_in_expr(
                        parts@[i as int],
                    ));
                }
                i = i + 1;
            }
        },
        ast::Expr::If { cond, then, else_block, .. } => {
            collect_closures_in_expr(cond, out);
            collect_closures_in_block(then, out);
            if let Some(els) = else_block {
                collect_closures_in_block(els, out);
            }
            proof {
                assert(derefs(out@) =~= start + closures_in_expr(*expr));
            }
        },
        _ => {
            assert(derefs(out@) =~= start + closures_in_expr(*expr));
        },
    }
}

/// The closures of the program that need trampolines: those in the bodies
/// of its functions, each before the closures of its own body.
pub fn collect_closures_in_program<'a, 'src>(program: &'a ast::Program<'src>) -> (r: Vec<&'a ast::Expr<'src>>)
    ensures
        derefs(r@) == closures_in_decls(program.declarations@, program.declarations@.len() as int),
        forall|i: int| 0 <= i < r@.len() ==> r@[i] is Closure,
{
    let mut closures: Vec<&'a ast::Expr<'src>> = Vec::new();
    let ghost ds = program.declarations@;
    let mut i: usize = 0;
    assert(derefs(closures@) =~= Seq::<ast::Expr<'src>>::empty());
    while i < program.declarations.len()
        invariant
            0 <= i <= ds.len(),
            ds == program.declarations@,
            derefs(closures@) == closures_in_decls(ds, i as int),
        decreases ds.len() - i,
    {
        let ghost before = derefs(closures@);
        if let ast::Declaration::Function(func) = &program.declarations[i] {
            collect_closures_in_block(&func.body, &mut closures);
        }
        proof {
            assert(derefs(closures@) =~= closures_in_decls(ds, i + 1));
        }
        i = i + 1;
    }
    proof {
        lemma_all_closures(ds, ds.len() as int);
        assert forall|i: int| 0 <= i < closures@.len() implies closures@[i] is Closure by {
            assert(derefs(closures@)[i] == *closures@[i]);
        }
    }
    closures
}

/// Every item the search finds is a closure.
proof fn lemma_all_closures<'src>(ds: Seq<ast::Declaration<'src>>, n: int)
    ensures
        forall|i: int| 0 <= i < closures_in_decls(ds, n).len() ==> #[trigger] closures_in_decls(ds, n)[i] is Closure,
    decreases n,
{
    if n > 0 && n <= ds.len() {
        lemma_all_closures(ds, n - 1);
        if let ast::Declaration::Function(f) = ds[n - 1] {
            lemma_block_closures(f.body);
        }
    }
}

proof fn lemma_block_closures<'src>(b: ast::Block<'src>)
    ensures
        forall|i: int| 0 <= i < closures_in_block(b).len() ==> #[trigger] closures_in_block(b)[i] is Closure,
    decreases b, 0int,
{
    lemma_stmts_closures(b.statements@, b.statements@.len() as int);
}

proof fn lemma_stmts_closures<'src>(ss: Seq<ast::Statement<'src>>, n: int)
    ensures
        forall|i: int| 0 <= i < closures_in_stmts(ss, n).len() ==> #[trigger] closures_in_stmts(ss, n)[i] is Closure,
    decreases ss, n,
{
    if n > 0 && n <= ss.len() {
        lemma_stmts_closures(ss, n - 1);
        lemma_stmt_closures(ss[n - 1]);
    }
}

proof fn lemma_stmt_closures<'src>(s: ast::Statement<'src>)
    ensures
        forall|i: int| 0 <= i < closures_in_stmt(s).len() ==> #[trigger] closures_in_stmt(s)[i] is Closure,
    decreases s, 0int,
{
    match s {
        ast::Statement::Let { expr, .. } => lemma_expr_closures(expr),
        ast::Statement::Assign { expr, .. } => lemma_expr_closures(expr),
        ast::Statement::Return { expr } => if let Some(e) = expr {
            lemma_expr_closures(e);
        },
        ast::Statement::Expr(e) => lemma_expr_closures(e),
        ast::Statement::ForLoop { cond, block } => {
            if let Some(c) = cond {
                lemma_expr_closures(c);
            }
            lemma_block_closures(block);
        },
        _ => {},
    }
}

proof fn lemma_exprs_closures<'src>(es: Seq<ast::Expr<'src>>, n: int)
    ensures
        forall|i: int| 0 <= i < closures_in_exprs(es, n).len() ==> #[trigger] closures_in_exprs(es, n)[i] is Closure,
    decreases es, n,
{
    if n > 0 && n <= es.len() {
        lemma_exprs_closures(es, n - 1);
        lemma_expr_closures(es[n - 1]);
    }
}

proof fn lemma_expr_closures<'src>(e: ast::Expr<'src>)
    ensures
        forall|i: int| 0 <= i < closures_in_expr(e).len() ==> #[trigger] closures_in_expr(e)[i] is Closure,
    decreases e, 0int,
{
    match e {
        ast::Expr::Closure { body, .. } => lemma_block_closures(body),
        ast::Expr::Call { call, .. } => lemma_exprs_closures(call.args@, call.args@.len() as int),
        ast::Expr::Binary { left, right, .. } => {
            lemma_expr_closures(*left);
            lemma_expr_closures(*right);
        },
        ast::Expr::StringInterpolation(parts) => lemma_exprs_closures(parts@, parts@.len() as int),
        ast::Expr::If { cond, then, else_block, .. } => {
            lemma_expr_closures(*cond);
            lemma_block_closures(then);
            if let Some(b) = else_block {
                lemma_block_closures(b);
            }
        },
        _ => {},
    }
}

// ---------------------------------------------------------------------------
// Names, linkage and machine types
// ---------------------------------------------------------------------------

/// The name of the function that runs a closure's body.
pub fn trampoline_name(mangled_name: &str) -> (r: String)
    ensures
        r@ == mangled_name@ + "__trampoline"@,
{
    concat(mangled_name, "__trampoline")
}

/// How a generated function is linked.
#[derive(Debug, Clone, Copy, PartialEq, Eq, Structural)]
pub enum Linkage {
    /// Defined in another object file.
    Import,
    /// Visible to the linker.
    Export,
    /// Local to the object file.
    Local,
}

/// Public functions and `main` are exported, every other function is local.
pub fn function_linkage<'src>(function: &ast::Function<'src>) -> (r: Linkage)
    ensures
        r == (if function.public || function.name@ == "main"@ {
            Linkage::Export
        } else {
            Linkage::Local
        }),
{
    if function.public || str_eq(function.name.as_str(), "main") {
        Linkage::Export
    } else {
        Linkage::Local
    }
}

/// The machine type of a value.
#[derive(Debug, Clone, Copy, PartialEq, Eq, Structural)]
pub enum MachineType {
    /// A 64-bit integer.
    I64,
    /// A 64-bit float.
    F64,
    /// An 8-bit integer, for booleans.
    I8,
    /// A pointer of the target.
    Pointer,
}

/// The machine type of a value of a type: integers are 64-bit, floats
/// 64-bit floats, strings pointers, booleans 8-bit; `void` has none.
pub open spec fn spec_machine_type<'src>(ty: ast::TypeKind<'src>) -> Option<MachineType> {
    match ty {
        ast::TypeKind::Int => Some(MachineType::I64),
        ast::TypeKind::Float => Some(MachineType::F64),
        ast::TypeKind::String => Some(MachineType::Pointer),
        ast::TypeKind::Bool => Some(MachineType::I8),
        _ => None,
    }
}

/// The machine type of a value of a type; named types have none yet.
pub fn type_from_ast<'src>(ty: &ast::TypeKind<'src>) -> (r: Option<MachineType>)
    requires
        !(*ty is Ident),
    ensures
        r == spec_machine_type(*ty),
{
    match ty {
        ast::TypeKind::Ident(_) => vstd::pervasive::unreached(),
        ast::TypeKind::Int => Some(MachineType::I64),
        ast::TypeKind::Float => Some(MachineType::F64),
        ast::TypeKind::String => Some(MachineType::Pointer),
        ast::TypeKind::Bool => Some(MachineType::I8),
        ast::TypeKind::Void => None,
    }
}

// ---------------------------------------------------------------------------
// Instructions for operators and constants
// ---------------------------------------------------------------------------

/// A comparison of signed integers.
#[derive(Debug, Clone, Copy, PartialEq, Eq, Structural)]
pub enum IntCond {
    Equal,
    NotEqual,
    SignedLessThan,
    SignedGreaterThan,
    SignedLessThanOrEqual,
    SignedGreaterThanOrEqual,
}

/// The integer instruction that implements a binary operator.
#[derive(Debug, Clone, Copy, PartialEq, Eq, Structural)]
pub enum IntInst {
    Iadd,
    Isub,
    Imul,
    Sdiv,
    Srem,
    Icmp(IntCond),
    Bor,
}

/// The instruction for each operator; `**` and `and` have none yet.
pub open spec fn spec_binary_inst(op: ast::BinaryOp) -> IntInst {
    match op {
        ast::BinaryOp::Add => IntInst::Iadd,
        ast::BinaryOp::Sub => IntInst::Isub,
        ast::BinaryOp::Mul => IntInst::Imul,
        ast::BinaryOp::Div => IntInst::Sdiv,
        ast::BinaryOp::Mod => IntInst::Srem,
        ast::BinaryOp::Eq => IntInst::Icmp(IntCond::Equal),
        ast::BinaryOp::Ne => IntInst::Icmp(IntCond::NotEqual),
        ast::BinaryOp::Lt => IntInst::Icmp(IntCond::SignedLessThan),
        ast::BinaryOp::Gt => IntInst::Icmp(IntCond::SignedGreaterThan),
        ast::BinaryOp::LtEq => IntInst::Icmp(IntCond::SignedLessThanOrEqual),
        ast::BinaryOp::GtEq => IntInst::Icmp(IntCond::SignedGreaterThanOrEqual),
        _ => IntInst::Bor,
    }
}

pub fn binary_inst(op: ast::BinaryOp) -> (r: IntInst)
    requires
        op != ast::BinaryOp::Exp,
        op != ast::BinaryOp::And,
    ensures
        r == spec_binary_inst(op),
{
    match op {
        ast::BinaryOp::Add => IntInst::Iadd,
        ast::BinaryOp::Sub => IntInst::Isub,
        ast::BinaryOp::Mul => IntInst::Imul,
        ast::BinaryOp::Div => IntInst::Sdiv,
        ast::BinaryOp::Mod => IntInst::Srem,
        ast::BinaryOp::Eq => IntInst::Icmp(IntCond::Equal),
        ast::BinaryOp::Ne => IntInst::Icmp(IntCond::NotEqual),
        ast::BinaryOp::Lt => IntInst::Icmp(IntCond::SignedLessThan),
        ast::BinaryOp::Gt => IntInst::Icmp(IntCond::SignedGreaterThan),
        ast::BinaryOp::LtEq => IntInst::Icmp(IntCond::SignedLessThanOrEqual),
        ast::BinaryOp::GtEq => IntInst::Icmp(IntCond::SignedGreaterThanOrEqual),
        ast::BinaryOp::Or => IntInst::Bor,
        _ => vstd::pervasive::unreached(),
    }
}

// ---------------------------------------------------------------------------
// What the instructions compute
// ---------------------------------------------------------------------------

/// `x` taken to 64-bit two's complement.
pub open spec fn wrap64(x: int) -> int {
    (x + 0x8000_0000_0000_0000) % 0x1_0000_0000_0000_0000 - 0x8000_0000_0000_0000
}

/// The absolute value.
pub open spec fn magnitude(x: int) -> int {
    if x < 0 {
        -x
    } else {
        x
    }
}

/// The quotient of `a` by a nonzero `b`, rounded toward zero.
pub open spec fn quotient_toward_zero(a: int, b: int) -> int {
    let q = magnitude(a) / magnitude(b);
    if (a < 0) != (b < 0) {
        -q
    } else {
        q
    }
}

/// Whether an integer condition holds of two signed values.
pub open spec fn cond_holds(c: IntCond, a: int, b: int) -> bool {
    match c {
        IntCond::Equal => a == b,
        IntCond::NotEqual => a != b,
        IntCond::SignedLessThan => a < b,
        IntCond::SignedGreaterThan => a > b,
        IntCond::SignedLessThanOrEqual => a <= b,
        IntCond::SignedGreaterThanOrEqual => a >= b,
    }
}

/// What a Cranelift integer instruction gives on two 64-bit operands:
/// sums, differences and products wrap around; `sdiv` traps on a zero
/// divisor and on the one quotient that overflows, `srem` on a zero divisor;
/// `icmp` gives 1 or 0; `bor` is the bitwise or. `None` where it traps.
pub open spec fn inst_value(inst: IntInst, a: i64, b: i64) -> Option<int> {
    match inst {
        IntInst::Iadd => Some(wrap64(a + b)),
        IntInst::Isub => Some(wrap64(a - b)),
        IntInst::Imul => Some(wrap64(a * b)),
        IntInst::Sdiv => if b == 0 || (a == i64::MIN && b == -1) {
            None
        } else {
            Some(signed_quotient(a, b))
        },
        IntInst::Srem => if b == 0 {
            None
        } else {
            Some(a - b * signed_quotient(a, b))
        },
        IntInst::Icmp(c) => Some(if condition_holds(c, a, b) {
            1int
        } else {
            0int
        }),
        IntInst::Bor => Some(bitwise_or(a, b)),
    }
}

/// The quotient of two 64-bit integers, rounded toward zero.
pub open spec fn signed_quotient(a: i64, b: i64) -> int {
    quotient_toward_zero(a as int, b as int)
}

/// Whether a condition holds of two 64-bit integers.
pub open spec fn condition_holds(c: IntCond, a: i64, b: i64) -> bool {
    cond_holds(c, a as int, b as int)
}

/// The bitwise or of two 64-bit integers.
pub open spec fn bitwise_or(a: i64, b: i64) -> int {
    (a | b) as int
}

/// What a binary operator of the language means on two 64-bit integers (or,
/// for `or`, on two booleans stored as 0 and 1): `+`, `-` and `*` in 64-bit
/// two's complement; `/` divides rounding toward zero and `%` leaves the
/// remainder with the sign of the dividend, neither defined on a zero
/// divisor, and `/` not on the quotient that does not fit; comparisons give 1
/// when they hold and 0 when not; `or` gives 1 when either side is true.
/// `None` where the operator has no value.
pub open spec fn operator_value(op: ast::BinaryOp, a: i64, b: i64) -> Option<int> {
    match op {
        ast::BinaryOp::Add => Some(wrap64(a + b)),
        ast::BinaryOp::Sub => Some(wrap64(a - b)),
        ast::BinaryOp::Mul => Some(wrap64(a * b)),
        ast::BinaryOp::Div => if b == 0 || (a == i64::MIN && b == -1) {
            None
        } else {
            Some(signed_quotient(a, b))
        },
        ast::BinaryOp::Mod => if b == 0 {
            None
        } else {
            Some(a - b * signed_quotient(a, b))
        },
        ast::BinaryOp::Eq => Some(if a == b { 1int } else { 0int }),
        ast::BinaryOp::Ne => Some(if a != b { 1int } else { 0int }),
        ast::BinaryOp::Lt => Some(if a < b { 1int } else { 0int }),
        ast::BinaryOp::Gt => Some(if a > b { 1int } else { 0int }),
        ast::BinaryOp::LtEq => Some(if a <= b { 1int } else { 0int }),
        ast::BinaryOp::GtEq => Some(if a >= b { 1int } else { 0int }),
        ast::BinaryOp::Or => Some(if a != 0 || b != 0 { 1int } else { 0int }),
        _ => None,
    }
}

/// Whether the operands fit the operator: `or` takes booleans, stored as 0
/// and 1; the others take any integers.
pub open spec fn operands_fit(op: ast::BinaryOp, a: i64, b: i64) -> bool {
    op == ast::BinaryOp::Or ==> (a == 0 || a == 1) && (b == 0 || b == 1)
}

/// Whether an instruction computes what an operator means, on every pair of
/// operands that fit the operator.
pub open spec fn computes(inst: IntInst, op: ast::BinaryOp) -> bool {
    forall|a: i64, b: i64| operands_fit(op, a, b) ==> #[trigger] inst_value(inst, a, b) == operator_value(op, a, b)
}

/// The instruction chosen for an operator computes what the operator means.
pub proof fn law_binary_inst_computes_operator(op: ast::BinaryOp)
    requires
        op != ast::BinaryOp::Exp,
        op != ast::BinaryOp::And,
    ensures
        computes(spec_binary_inst(op), op),
{
    if op == ast::BinaryOp::Or {
        assert forall|a: i64, b: i64| operands_fit(op, a, b) implies #[trigger] inst_value(
            spec_binary_inst(op),
            a,
            b,
        ) == operator_value(op, a, b) by {
            assert((a == 0 || a == 1) && (b == 0 || b == 1) ==> ((a | b) == 0 <==> (a == 0 && b == 0))
                && ((a | b) == 0 || (a | b) == 1)) by (bit_vector);
        }
    }
}

/// Different operators are carried out by different instructions.
pub proof fn law_binary_inst_injective(op1: ast::BinaryOp, op2: ast::BinaryOp)
    requires
        op1 != ast::BinaryOp::Exp,
        op1 != ast::BinaryOp::And,
        op2 != ast::BinaryOp::Exp,
        op2 != ast::BinaryOp::And,
        op1 != op2,
    ensures
        spec_binary_inst(op1) != spec_binary_inst(op2),
{
    law_binary_inst_computes_operator(op1);
    law_binary_inst_computes_operator(op2);
    if spec_binary_inst(op1) == spec_binary_inst(op2) {
        let i = spec_binary_inst(op1);
        // Some pair of operands, fitting both, tells the two operators apart.
        assert(operands_fit(op1, 0, 1) && operands_fit(op2, 0, 1));
        assert(operands_fit(op1, 1, 0) && operands_fit(op2, 1, 0));
        assert(operands_fit(op1, 1, 1) && operands_fit(op2, 1, 1));
        assert(operands_fit(op1, 0, 0) && operands_fit(op2, 0, 0));
        assert(inst_value(i, 0, 1) == operator_value(op1, 0, 1));
        assert(inst_value(i, 0, 1) == operator_value(op2, 0, 1));
        assert(inst_value(i, 1, 0) == operator_value(op1, 1, 0));
        assert(inst_value(i, 1, 0) == operator_value(op2, 1, 0));
        assert(inst_value(i, 1, 1) == operator_value(op1, 1, 1));
        assert(inst_value(i, 1, 1) == operator_value(op2, 1, 1));
        assert(inst_value(i, 0, 0) == operator_value(op1, 0, 0));
        assert(inst_value(i, 0, 0) == operator_value(op2, 0, 0));
    }
}

/// The bytes of a string constant: the text, NUL-terminated; the written
/// escapes `\n` and `\t` stand for a newline and a tab.
pub open spec fn spec_string_data(s: Option<&str>) -> Seq<u8> {
    match s {
        Some(t) => if t@ == "\\n"@ {
            seq![10u8, 0u8]
        } else if t@ == "\\t"@ {
            seq![9u8, 0u8]
        } else {
            t.spec_bytes().push(0u8)
        },
        None => seq![0u8],
    }
}

pub fn string_data(s: Option<&str>) -> (r: Vec<u8>)
    ensures
        r@ == spec_string_data(s),
{
    let mut data_bytes: Vec<u8> = Vec::new();
    match s {
        Some(t) => {
            if str_eq(t, "\\n") {
                data_bytes.push(10u8);
            } else if str_eq(t, "\\t") {
                data_bytes.push(9u8);
            } else {
                let bytes = t.as_bytes();
                let mut i: usize = 0;
                while i < bytes.len()
                    invariant
                        0 <= i <= bytes@.len(),
                        bytes@ == t.spec_bytes(),
                        data_bytes@ == bytes@.subrange(0, i as int),
                    decreases bytes@.len() - i,
                {
                    data_bytes.push(bytes[i]);
                    i = i + 1;
                }
                assert(bytes@.subrange(0, bytes@.len() as int) =~= bytes@);
            }
        },
        None => {},
    }
    data_bytes.push(0u8);
    proof {
        if s is Some && s->0@ != "\\n"@ && s->0@ != "\\t"@ {
            assert(data_bytes@ =~= s->0.spec_bytes().push(0u8));
        } else {
            assert(data_bytes@ =~= spec_string_data(s));
        }
    }
    data_bytes
}

} // verus!
