//! Code generation as a plan: for each function of a program, the exact
//! sequence of calls the code generator makes to build its machine code:
//! which blocks it creates and in which order, which values it computes,
//! which variables and stack slots it declares, which functions it calls.
//!
//! A plan names every block, value, variable, stack slot and imported
//! function by the number of such things created before it in the same
//! function. Running a plan against the code generator is a matter of
//! making each call in turn.

use crate::bir_ast as ast;
use crate::codegen::{
    closures_in_decls,
    derefs,
    spec_binary_inst,
    spec_machine_type,
    spec_string_data,
    IntInst,
    Linkage,
    MachineType,
};
use vstd::prelude::*;
use vstd::string::*;

verus! {

// ---------------------------------------------------------------------------
// The calls of a plan
// ---------------------------------------------------------------------------

/// One call to the code generator. Values, blocks, variables, stack slots and
/// imported functions are numbered in the order the calls create them.
#[derive(Debug, Clone, PartialEq, Eq)]
pub enum Op {
    /// Creates a block.
    CreateBlock,
    /// Adds a parameter of the given type to a block.
    AppendBlockParam { block: usize, ty: MachineType },
    /// Gives a block the parameters of the function.
    AppendFunctionParams { block: usize },
    /// Makes a block the one instructions go to.
    SwitchToBlock { block: usize },
    /// Declares that no more jumps to a block will be added.
    SealBlock { block: usize },
    /// Creates a value: a parameter of a block.
    BlockParam { block: usize, index: usize },
    /// Creates a variable of the given type.
    DeclareVar { ty: MachineType },
    /// Creates a variable of the type of a value.
    DeclareVarLike { value: usize },
    /// Gives a variable a value.
    DefVar { var: usize, value: usize },
    /// Creates a value: the current value of a variable.
    UseVar { var: usize },
    /// Creates a value: an integer constant.
    Iconst { ty: MachineType, imm: i64 },
    /// Creates a value: an integer instruction on two values.
    Binary { inst: IntInst, left: usize, right: usize },
    /// Branches on a value to one of two blocks.
    Brif { cond: usize, then_block: usize, else_block: usize },
    /// Jumps to a block with arguments.
    Jump { block: usize, args: Vec<usize> },
    /// Returns values from the function.
    Return { values: Vec<usize> },
    /// Imports a declared function by its name into the function.
    DeclareFunc { name: String },
    /// Calls an imported function; creates a value when it returns one.
    Call { func: usize, args: Vec<usize>, has_result: bool },
    /// Calls the function a value points to, with the given signature;
    /// creates a value when it returns one.
    CallIndirect {
        params: Vec<MachineType>,
        ret: Option<MachineType>,
        callee: usize,
        args: Vec<usize>,
    },
    /// Creates a value: the address of a new data object holding the bytes.
    StringData { bytes: Vec<u8>, writable: bool },
    /// Creates a value: the address of an imported function.
    FuncAddr { func: usize },
    /// Creates a stack slot of the given size.
    CreateSlot { size: u32 },
    /// Creates a stack slot the size of a value's type.
    CreateSlotLike { value: usize },
    /// Stores a value into a stack slot at an offset.
    StackStore { value: usize, slot: usize, offset: i32 },
    /// Creates a value: loads from a stack slot a value of the type of `like`.
    StackLoadLike { slot: usize, like: usize },
    /// Creates a value: the address of a stack slot.
    StackAddr { slot: usize },
    /// Creates a value: loads a value of the given type from an address plus
    /// an offset.
    Load { ty: MachineType, base: usize, offset: i32 },
    /// Stores a value at an address.
    Store { value: usize, base: usize },
}

/// The abstract content of a call: the same, with sequences for lists.
pub ghost enum OpView {
    CreateBlock,
    AppendBlockParam { block: nat, ty: MachineType },
    AppendFunctionParams { block: nat },
    SwitchToBlock { block: nat },
    SealBlock { block: nat },
    BlockParam { block: nat, index: nat },
    DeclareVar { ty: MachineType },
    DeclareVarLike { value: nat },
    DefVar { var: nat, value: nat },
    UseVar { var: nat },
    Iconst { ty: MachineType, imm: i64 },
    Binary { inst: IntInst, left: nat, right: nat },
    Brif { cond: nat, then_block: nat, else_block: nat },
    Jump { block: nat, args: Seq<nat> },
    Return { values: Seq<nat> },
    DeclareFunc { name: Seq<char> },
    Call { func: nat, args: Seq<nat>, has_result: bool },
    CallIndirect { params: Seq<MachineType>, ret: Option<MachineType>, callee: nat, args: Seq<nat> },
    StringData { bytes: Seq<u8>, writable: bool },
    FuncAddr { func: nat },
    CreateSlot { size: u32 },
    CreateSlotLike { value: nat },
    StackStore { value: nat, slot: nat, offset: i32 },
    StackLoadLike { slot: nat, like: nat },
    StackAddr { slot: nat },
    Load { ty: MachineType, base: nat, offset: i32 },
    Store { value: nat, base: nat },
}

/// The ids of a list, as numbers.
pub open spec fn ids(v: Seq<usize>) -> Seq<nat> {
    v.map_values(|x: usize| x as nat)
}

impl View for Op {
    type V = OpView;

    open spec fn view(&self) -> OpView {
        match self {
            Op::CreateBlock => OpView::CreateBlock,
            Op::AppendBlockParam { block, ty } => OpView::AppendBlockParam {
                block: *block as nat,
                ty: *ty,
            },
            Op::AppendFunctionParams { block } => OpView::AppendFunctionParams {
                block: *block as nat,
            },
            Op::SwitchToBlock { block } => OpView::SwitchToBlock { block: *block as nat },
            Op::SealBlock { block } => OpView::SealBlock { block: *block as nat },
            Op::BlockParam { block, index } => OpView::BlockParam {
                block: *block as nat,
                index: *index as nat,
            },
            Op::DeclareVar { ty } => OpView::DeclareVar { ty: *ty },
            Op::DeclareVarLike { value } => OpView::DeclareVarLike { value: *value as nat },
            Op::DefVar { var, value } => OpView::DefVar { var: *var as nat, value: *value as nat },
            Op::UseVar { var } => OpView::UseVar { var: *var as nat },
            Op::Iconst { ty, imm } => OpView::Iconst { ty: *ty, imm: *imm },
            Op::Binary { inst, left, right } => OpView::Binary {
                inst: *inst,
                left: *left as nat,
                right: *right as nat,
            },
            Op::Brif { cond, then_block, else_block } => OpView::Brif {
                cond: *cond as nat,
                then_block: *then_block as nat,
                else_block: *else_block as nat,
            },
            Op::Jump { block, args } => OpView::Jump { block: *block as nat, args: ids(args@) },
            Op::Return { values } => OpView::Return { values: ids(values@) },
            Op::DeclareFunc { name } => OpView::DeclareFunc { name: name@ },
            Op::Call { func, args, has_result } => OpView::Call {
                func: *func as nat,
                args: ids(args@),
                has_result: *has_result,
            },
            Op::CallIndirect { params, ret, callee, args } => OpView::CallIndirect {
                params: params@,
                ret: *ret,
                callee: *callee as nat,
                args: ids(args@),
            },
            Op::StringData { bytes, writable } => OpView::StringData {
                bytes: bytes@,
                writable: *writable,
            },
            Op::FuncAddr { func } => OpView::FuncAddr { func: *func as nat },
            Op::CreateSlot { size } => OpView::CreateSlot { size: *size },
            Op::CreateSlotLike { value } => OpView::CreateSlotLike { value: *value as nat },
            Op::StackStore { value, slot, offset } => OpView::StackStore {
                value: *value as nat,
                slot: *slot as nat,
                offset: *offset,
            },
            Op::StackLoadLike { slot, like } => OpView::StackLoadLike {
                slot: *slot as nat,
                like: *like as nat,
            },
            Op::StackAddr { slot } => OpView::StackAddr { slot: *slot as nat },
            Op::Load { ty, base, offset } => OpView::Load {
                ty: *ty,
                base: *base as nat,
                offset: *offset,
            },
            Op::Store { value, base } => OpView::Store { value: *value as nat, base: *base as nat },
        }
    }
}

// ---------------------------------------------------------------------------
// The state of planning a function
// ---------------------------------------------------------------------------

/// Where the planning of a function stands: the calls so far, how many
/// values, blocks, variables, stack slots and imported functions they made,
/// the variables in scope by name (a later entry hides an earlier one), the
/// enclosing loops (header and exit block), the stack slots that hold the
/// variables captured mutably by closures (name, slot, and a value of the
/// variable's type), and, in a closure's body, the variables that hold a
/// pointer to such a slot.
pub ghost struct PlanState {
    pub ops: Seq<OpView>,
    pub values: nat,
    pub blocks: nat,
    pub vars: nat,
    pub slots: nat,
    pub funcs: nat,
    pub variables: Seq<(Seq<char>, nat)>,
    pub loops: Seq<(nat, nat)>,
    pub capture_slots: Seq<(Seq<char>, nat, nat)>,
    pub capture_ptrs: Seq<(Seq<char>, nat)>,
}

/// What planning a function knows of the program: the size of a pointer in
/// bytes, and every declared function with whether it returns a value.
pub ghost struct PlanEnv {
    pub ptr_size: u32,
    pub callees: Seq<(Seq<char>, bool)>,
}

/// The state before the first call.
pub open spec fn empty_state() -> PlanState {
    PlanState {
        ops: Seq::empty(),
        values: 0,
        blocks: 0,
        vars: 0,
        slots: 0,
        funcs: 0,
        variables: Seq::empty(),
        loops: Seq::empty(),
        capture_slots: Seq::empty(),
        capture_ptrs: Seq::empty(),
    }
}

/// One more call that creates nothing.
pub open spec fn emit(s: PlanState, op: OpView) -> PlanState {
    PlanState { ops: s.ops.push(op), ..s }
}

/// One more call that creates a value; the value's number is returned.
pub open spec fn value_op(s: PlanState, op: OpView) -> (nat, PlanState) {
    (s.values, PlanState { ops: s.ops.push(op), values: s.values + 1, ..s })
}

/// One more block.
pub open spec fn block_op(s: PlanState) -> (nat, PlanState) {
    (s.blocks, PlanState { ops: s.ops.push(OpView::CreateBlock), blocks: s.blocks + 1, ..s })
}

/// One more call that creates a variable.
pub open spec fn var_op(s: PlanState, op: OpView) -> (nat, PlanState) {
    (s.vars, PlanState { ops: s.ops.push(op), vars: s.vars + 1, ..s })
}

/// One more call that creates a stack slot.
pub open spec fn slot_op(s: PlanState, op: OpView) -> (nat, PlanState) {
    (s.slots, PlanState { ops: s.ops.push(op), slots: s.slots + 1, ..s })
}

/// One more imported function.
pub open spec fn func_op(s: PlanState, name: Seq<char>) -> (nat, PlanState) {
    (s.funcs, PlanState { ops: s.ops.push(OpView::DeclareFunc { name }), funcs: s.funcs + 1, ..s })
}

/// The state with a variable in scope under a name.
pub open spec fn with_variable(s: PlanState, name: Seq<char>, var: nat) -> PlanState {
    PlanState { variables: s.variables.push((name, var)), ..s }
}

/// The entry of the latest name, as a map lookup.
pub open spec fn lookup(entries: Seq<(Seq<char>, nat)>, name: Seq<char>) -> Option<nat>
    decreases entries.len(),
{
    if entries.len() == 0 {
        None
    } else if entries.last().0 == name {
        Some(entries.last().1)
    } else {
        lookup(entries.drop_last(), name)
    }
}

/// Whether the function of the given name returns a value; `None` when no
/// function of that name was declared.
pub open spec fn callee_returns(callees: Seq<(Seq<char>, bool)>, name: Seq<char>) -> Option<bool>
    decreases callees.len(),
{
    if callees.len() == 0 {
        None
    } else if callees[0].0 == name {
        Some(callees[0].1)
    } else {
        callee_returns(callees.drop_first(), name)
    }
}

/// The stack slot of a mutably captured variable and a value of its type.
pub open spec fn slot_of(slots: Seq<(Seq<char>, nat, nat)>, name: Seq<char>) -> Option<(nat, nat)>
    decreases slots.len(),
{
    if slots.len() == 0 {
        None
    } else if slots[0].0 == name {
        Some((slots[0].1, slots[0].2))
    } else {
        slot_of(slots.drop_first(), name)
    }
}

// ---------------------------------------------------------------------------
// Runtime calls
// ---------------------------------------------------------------------------

/// A call of a declared function that must return a value.
pub open spec fn call_for_value(env: PlanEnv, s: PlanState, name: Seq<char>, args: Seq<nat>) -> Option<
    (nat, PlanState),
> {
    match callee_returns(env.callees, name) {
        Some(true) => {
            let (f, s1) = func_op(s, name);
            Some(value_op(s1, OpView::Call { func: f, args, has_result: true }))
        },
        _ => None,
    }
}

/// A part of an interpolation as text: integers and floats through the
/// runtime's formatters, everything else as it is.
pub open spec fn formatted<'src>(env: PlanEnv, s: PlanState, v: nat, part: ast::Expr<'src>) -> Option<
    (nat, PlanState),
> {
    match ast::expr_ty(part) {
        ast::TypeKind::Int => call_for_value(env, s, "rt_int_to_str"@, seq![v]),
        ast::TypeKind::Float => call_for_value(env, s, "rt_double_to_str"@, seq![v]),
        _ => Some((v, s)),
    }
}

/// The machine types of the arguments of a closure call, skipping those of
/// type `void`; `None` when an argument is a struct instance or of a named
/// type.
pub open spec fn arg_types<'src>(es: Seq<ast::Expr<'src>>, n: int) -> Option<Seq<MachineType>>
    decreases n,
{
    if n <= 0 || n > es.len() {
        Some(Seq::empty())
    } else {
        match arg_types(es, n - 1) {
            None => None,
            Some(tys) => if es[n - 1] is StructInstance || ast::expr_ty(es[n - 1]) is Ident {
                None
            } else {
                match spec_machine_type(ast::expr_ty(es[n - 1])) {
                    Some(t) => Some(tys.push(t)),
                    None => Some(tys),
                }
            },
        }
    }
}

/// After a closure call: each mutably captured variable still in scope gets
/// its value back from its stack slot, in the order the slots were made.
pub open spec fn reload(s: PlanState, slots: Seq<(Seq<char>, nat, nat)>, n: int) -> PlanState
    decreases n,
{
    if n <= 0 || n > slots.len() {
        s
    } else {
        let s1 = reload(s, slots, n - 1);
        match lookup(s1.variables, slots[n - 1].0) {
            Some(var) => {
                let (v, s2) = value_op(
                    s1,
                    OpView::StackLoadLike { slot: slots[n - 1].1, like: slots[n - 1].2 },
                );
                emit(s2, OpView::DefVar { var, value: v })
            },
            None => s1,
        }
    }
}

/// The offset of the `i`-th captured variable in a closure's environment:
/// one pointer-sized entry each, computed in 32 bits; `None` when that
/// overflows.
pub open spec fn env_offset(i: int, ptr_size: u32) -> Option<i32> {
    if (i as u32) * ptr_size > u32::MAX {
        None
    } else {
        Some((((i as u32) * ptr_size) as u32) as i32)
    }
}

/// Stores the captured variables `caps[..n]` (name, captured mutably) into
/// the environment slot `env_slot`: a mutably captured variable is synced
/// into a stack slot of its own and a pointer to that slot is stored; any
/// other variable's value is stored.
pub open spec fn store_captures(
    env: PlanEnv,
    s: PlanState,
    caps: Seq<(Seq<char>, bool)>,
    n: int,
    env_slot: nat,
) -> Option<PlanState>
    decreases n,
{
    if n <= 0 || n > caps.len() {
        Some(s)
    } else {
        match store_captures(env, s, caps, n - 1, env_slot) {
            None => None,
            Some(s1) => {
                let (name, is_mutable) = caps[n - 1];
                match (env_offset(n - 1, env.ptr_size), lookup(s1.variables, name)) {
                    (Some(offset), Some(var)) => {
                        let (cur, s2) = value_op(s1, OpView::UseVar { var });
                        if is_mutable {
                            let (slot, s3) = match slot_of(s2.capture_slots, name) {
                                Some((sl, _)) => (sl, s2),
                                None => {
                                    let (sl, t) = slot_op(s2, OpView::CreateSlotLike { value: cur });
                                    (sl, PlanState { capture_slots: t.capture_slots.push((name, sl, cur)), ..t })
                                },
                            };
                            let s4 = emit(s3, OpView::StackStore { value: cur, slot, offset: 0 });
                            let (ptr, s5) = value_op(s4, OpView::StackAddr { slot });
                            Some(emit(s5, OpView::StackStore { value: ptr, slot: env_slot, offset }))
                        } else {
                            Some(emit(s2, OpView::StackStore { value: cur, slot: env_slot, offset }))
                        }
                    },
                    _ => None,
                }
            },
        }
    }
}

/// A closure value: the address of a stack slot holding the address of the
/// closure's trampoline and the address of its environment (a stack slot
/// with one pointer-sized entry per captured variable, or null when it
/// captures nothing).
pub open spec fn plan_closure(env: PlanEnv, s: PlanState, mangled_name: Seq<char>, caps: Seq<(Seq<char>, bool)>) -> Option<
    (Option<nat>, PlanState),
> {
    let name = mangled_name + "__trampoline"@;
    match callee_returns(env.callees, name) {
        None => None,
        Some(_) => {
            let (f, s1) = func_op(s, name);
            let (fn_ptr, s2) = value_op(s1, OpView::FuncAddr { func: f });
            let env_ptr = if caps.len() == 0 {
                Some(value_op(s2, OpView::Iconst { ty: MachineType::Pointer, imm: 0 }))
            } else if (caps.len() as u32) * env.ptr_size > u32::MAX {
                None
            } else {
                let (env_slot, s3) = slot_op(
                    s2,
                    OpView::CreateSlot { size: ((caps.len() as u32) * env.ptr_size) as u32 },
                );
                match store_captures(env, s3, caps, caps.len() as int, env_slot) {
                    None => None,
                    Some(s4) => Some(value_op(s4, OpView::StackAddr { slot: env_slot })),
                }
            };
            match env_ptr {
                None => None,
                Some((ep, s5)) => if 2 * env.ptr_size > u32::MAX {
                    None
                } else {
                    let (cs, s6) = slot_op(s5, OpView::CreateSlot { size: (2 * env.ptr_size) as u32 });
                    let s7 = emit(s6, OpView::StackStore { value: fn_ptr, slot: cs, offset: 0 });
                    let s8 = emit(
                        s7,
                        OpView::StackStore { value: ep, slot: cs, offset: env.ptr_size as i32 },
                    );
                    let (cp, s9) = value_op(s8, OpView::StackAddr { slot: cs });
                    Some((Some(cp), s9))
                },
            }
        },
    }
}

/// The names and capture modes of a closure's captured variables.
pub open spec fn capture_modes(caps: Seq<(String, ast::TypeKind<'_>, bool)>) -> Seq<(Seq<char>, bool)> {
    caps.map_values(|c: (String, ast::TypeKind<'_>, bool)| (c.0@, c.2))
}

// ---------------------------------------------------------------------------
// Expressions and statements
// ---------------------------------------------------------------------------

/// The calls that compute an expression, and the value it gives (`None` for
/// a `void` expression). `None` overall where the code generator stops: a
/// construct it does not handle yet, an unknown variable or function, a
/// `void` value where one is needed, an empty branch of an `if`, or a size
/// that overflows.
pub open spec fn plan_expr<'src>(env: PlanEnv, s: PlanState, e: ast::Expr<'src>) -> Option<
    (Option<nat>, PlanState),
>
    decreases e, 0int,
{
    match e {
        ast::Expr::IntLiteral(i) => {
            let (v, s1) = value_op(s, OpView::Iconst { ty: MachineType::I64, imm: i });
            Some((Some(v), s1))
        },
        ast::Expr::StringLiteral(t) => {
            let (v, s1) = value_op(s, OpView::StringData { bytes: spec_string_data(t), writable: false });
            Some((Some(v), s1))
        },
        ast::Expr::StringInterpolation(parts) => match plan_parts(env, s, parts@, parts@.len() as int) {
            Some((v, s1)) => Some((Some(v), s1)),
            None => None,
        },
        ast::Expr::Ident { ident, .. } => match lookup(s.variables, ident.inner@) {
            Some(var) => {
                let (v, s1) = value_op(s, OpView::UseVar { var });
                Some((Some(v), s1))
            },
            None => None,
        },
        ast::Expr::Binary { op, left, right, .. } => match plan_expr(env, s, *left) {
            Some((Some(l), s1)) => match plan_expr(env, s1, *right) {
                Some((Some(r), s2)) => if op == ast::BinaryOp::Exp || op == ast::BinaryOp::And {
                    None
                } else {
                    let (v, s3) = value_op(
                        s2,
                        OpView::Binary { inst: spec_binary_inst(op), left: l, right: r },
                    );
                    Some((Some(v), s3))
                },
                _ => None,
            },
            _ => None,
        },
        ast::Expr::Call { call, ty } => plan_call(env, s, call, ty),
        ast::Expr::If { ty, cond, then, else_block, .. } => match plan_expr(env, s, *cond) {
            Some((Some(cv), s1)) => {
                let (tb, s2) = block_op(s1);
                let (eb, s3) = block_op(s2);
                let (mb, s4) = block_op(s3);
                if ty is Ident {
                    None
                } else {
                    let rt = spec_machine_type(ty);
                    let s5 = match rt {
                        Some(t) => emit(s4, OpView::AppendBlockParam { block: mb, ty: t }),
                        None => s4,
                    };
                    let s6 = emit(s5, OpView::Brif { cond: cv, then_block: tb, else_block: eb });
                    let s7 = emit(
                        emit(s6, OpView::SwitchToBlock { block: tb }),
                        OpView::SealBlock { block: tb },
                    );
                    match plan_branch(env, s7, then, rt is Some, mb) {
                        None => None,
                        Some(s8) => {
                            let s9 = emit(
                                emit(s8, OpView::SwitchToBlock { block: eb }),
                                OpView::SealBlock { block: eb },
                            );
                            let s10 = match else_block {
                                Some(b) => plan_branch(env, s9, b, rt is Some, mb),
                                None => Some(emit(s9, OpView::Jump { block: mb, args: seq![] })),
                            };
                            match s10 {
                                None => None,
                                Some(s10) => {
                                    let s11 = emit(
                                        emit(s10, OpView::SwitchToBlock { block: mb }),
                                        OpView::SealBlock { block: mb },
                                    );
                                    if rt is Some {
                                        let (phi, s12) = value_op(
                                            s11,
                                            OpView::BlockParam { block: mb, index: 0 },
                                        );
                                        Some((Some(phi), s12))
                                    } else {
                                        Some((None, s11))
                                    }
                                },
                            }
                        },
                    }
                }
            },
            _ => None,
        },
        ast::Expr::Closure { mangled_name, captures, .. } => plan_closure(
            env,
            s,
            mangled_name@,
            capture_modes(captures@),
        ),
        _ => None,
    }
}

/// A call: of a closure when a variable has the callee's name (through the
/// closure's trampoline, followed by reloading the mutably captured
/// variables), else of the declared function of that name.
pub open spec fn plan_call<'src>(env: PlanEnv, s: PlanState, call: ast::Call<'src>, ret_ty: ast::TypeKind<'src>) -> Option<
    (Option<nat>, PlanState),
>
    decreases call, 0int,
{
    match lookup(s.variables, call.callee@) {
        Some(cv) => {
            let (cp, s1) = value_op(s, OpView::UseVar { var: cv });
            let (fp, s2) = value_op(s1, OpView::Load { ty: MachineType::Pointer, base: cp, offset: 0 });
            let (ep, s3) = value_op(
                s2,
                OpView::Load { ty: MachineType::Pointer, base: cp, offset: env.ptr_size as i32 },
            );
            match plan_args(env, s3, call.args@, call.args@.len() as int) {
                None => None,
                Some((vals, s4)) => match arg_types(call.args@, call.args@.len() as int) {
                    None => None,
                    Some(tys) => if ret_ty is Ident {
                        None
                    } else {
                        let ret = spec_machine_type(ret_ty);
                        let op = OpView::CallIndirect {
                            params: seq![MachineType::Pointer] + tys,
                            ret,
                            callee: fp,
                            args: seq![ep] + vals,
                        };
                        let (r, s5) = if ret is Some {
                            let (v, t) = value_op(s4, op);
                            (Some(v), t)
                        } else {
                            (None, emit(s4, op))
                        };
                        Some((r, reload(s5, s5.capture_slots, s5.capture_slots.len() as int)))
                    },
                },
            }
        },
        None => match callee_returns(env.callees, call.callee@) {
            None => None,
            Some(has_result) => {
                let (f, s1) = func_op(s, call.callee@);
                match plan_args(env, s1, call.args@, call.args@.len() as int) {
                    None => None,
                    Some((vals, s2)) => {
                        let op = OpView::Call { func: f, args: vals, has_result };
                        if has_result {
                            let (v, s3) = value_op(s2, op);
                            Some((Some(v), s3))
                        } else {
                            Some((None, emit(s2, op)))
                        }
                    },
                }
            },
        },
    }
}

/// The values of the first `n` arguments, each of which must give one.
pub open spec fn plan_args<'src>(env: PlanEnv, s: PlanState, es: Seq<ast::Expr<'src>>, n: int) -> Option<
    (Seq<nat>, PlanState),
>
    decreases es, n,
{
    if n <= 0 || n > es.len() {
        Some((Seq::empty(), s))
    } else {
        match plan_args(env, s, es, n - 1) {
            None => None,
            Some((vals, s1)) => match plan_expr(env, s1, es[n - 1]) {
                Some((Some(v), s2)) => Some((vals.push(v), s2)),
                _ => None,
            },
        }
    }
}

/// A string interpolation of its first `n` parts: an empty writable string,
/// to which each part, as text, is concatenated by the runtime.
pub open spec fn plan_parts<'src>(env: PlanEnv, s: PlanState, es: Seq<ast::Expr<'src>>, n: int) -> Option<
    (nat, PlanState),
>
    decreases es, n,
{
    if n <= 0 || n > es.len() {
        Some(value_op(s, OpView::StringData { bytes: seq![0u8], writable: true }))
    } else {
        match plan_parts(env, s, es, n - 1) {
            None => None,
            Some((acc, s1)) => match plan_expr(env, s1, es[n - 1]) {
                Some((Some(v), s2)) => match formatted(env, s2, v, es[n - 1]) {
                    None => None,
                    Some((t, s3)) => call_for_value(env, s3, "rt_concat"@, seq![acc, t]),
                },
                _ => None,
            },
        }
    }
}

/// A branch of an `if`: every statement but the last, then the last, and a
/// jump to the merge block `mb` — with the last statement's value when the
/// `if` has one, and only when the last statement does not leave the block
/// otherwise. An empty branch is not handled.
pub open spec fn plan_branch<'src>(env: PlanEnv, s: PlanState, b: ast::Block<'src>, has_value: bool, mb: nat) -> Option<
    PlanState,
>
    decreases b, 0int,
{
    let ss = b.statements@;
    if ss.len() == 0 {
        None
    } else {
        match plan_stmts(env, s, ss, ss.len() - 1) {
            None => None,
            Some((_, s1)) => if has_value {
                match ss[ss.len() - 1] {
                    ast::Statement::Expr(e) => match plan_expr(env, s1, e) {
                        Some((Some(v), s2)) => Some(emit(s2, OpView::Jump { block: mb, args: seq![v] })),
                        _ => None,
                    },
                    _ => None,
                }
            } else {
                match plan_stmt(env, s1, ss[ss.len() - 1]) {
                    None => None,
                    Some((terminates, s2)) => if terminates {
                        Some(s2)
                    } else {
                        Some(emit(s2, OpView::Jump { block: mb, args: seq![] }))
                    },
                }
            },
        }
    }
}

/// The calls of the first `n` statements, and whether the last of them
/// leaves the block (a `return`, `break` or `continue`).
pub open spec fn plan_stmts<'src>(env: PlanEnv, s: PlanState, ss: Seq<ast::Statement<'src>>, n: int) -> Option<
    (bool, PlanState),
>
    decreases ss, n,
{
    if n <= 0 || n > ss.len() {
        Some((false, s))
    } else {
        match plan_stmts(env, s, ss, n - 1) {
            None => None,
            Some((_, s1)) => plan_stmt(env, s1, ss[n - 1]),
        }
    }
}

/// The calls of a statement, and whether it leaves the block.
pub open spec fn plan_stmt<'src>(env: PlanEnv, s: PlanState, st: ast::Statement<'src>) -> Option<
    (bool, PlanState),
>
    decreases st, 0int,
{
    match st {
        ast::Statement::Let { name, expr, .. } => match plan_expr(env, s, expr) {
            Some((Some(v), s1)) => {
                let (var, s2) = var_op(s1, OpView::DeclareVarLike { value: v });
                let s3 = emit(s2, OpView::DefVar { var, value: v });
                Some((false, with_variable(s3, name.inner@, var)))
            },
            _ => None,
        },
        ast::Statement::Assign { name, expr } => match plan_expr(env, s, expr) {
            Some((Some(v), s1)) => {
                let s2 = match lookup(s1.capture_ptrs, name.inner@) {
                    Some(pv) => {
                        let (p, t) = value_op(s1, OpView::UseVar { var: pv });
                        emit(t, OpView::Store { value: v, base: p })
                    },
                    None => s1,
                };
                match lookup(s2.variables, name.inner@) {
                    Some(var) => Some((false, emit(s2, OpView::DefVar { var, value: v }))),
                    None => None,
                }
            },
            _ => None,
        },
        ast::Statement::Return { expr } => match expr {
            None => Some((true, emit(s, OpView::Return { values: seq![] }))),
            Some(e) => match plan_expr(env, s, e) {
                Some((Some(v), s1)) => Some((true, emit(s1, OpView::Return { values: seq![v] }))),
                _ => None,
            },
        },
        ast::Statement::ForLoop { cond, block } => {
            let (h, s1) = block_op(s);
            let (b, s2) = block_op(s1);
            let (x, s3) = block_op(s2);
            let s4 = PlanState { loops: s3.loops.push((h, x)), ..s3 };
            let s5 = emit(emit(s4, OpView::Jump { block: h, args: seq![] }), OpView::SwitchToBlock { block: h });
            let c = match cond {
                Some(c) => match plan_expr(env, s5, c) {
                    Some((Some(v), t)) => Some((v, t)),
                    _ => None,
                },
                None => Some(value_op(s5, OpView::Iconst { ty: MachineType::I64, imm: 1 })),
            };
            match c {
                None => None,
                Some((cv, s6)) => {
                    let s7 = emit(s6, OpView::Brif { cond: cv, then_block: b, else_block: x });
                    let s8 = emit(
                        emit(s7, OpView::SwitchToBlock { block: b }),
                        OpView::SealBlock { block: b },
                    );
                    match plan_stmts(env, s8, block.statements@, block.statements@.len() as int) {
                        None => None,
                        Some((last_terminates, s9)) => {
                            let s10 = if last_terminates {
                                s9
                            } else {
                                emit(s9, OpView::Jump { block: h, args: seq![] })
                            };
                            let s11 = emit(
                                emit(
                                    emit(s10, OpView::SwitchToBlock { block: x }),
                                    OpView::SealBlock { block: h },
                                ),
                                OpView::SealBlock { block: x },
                            );
                            Some((false, PlanState { loops: s11.loops.drop_last(), ..s11 }))
                        },
                    }
                },
            }
        },
        ast::Statement::Expr(e) => match plan_expr(env, s, e) {
            Some((_, s1)) => Some((false, s1)),
            None => None,
        },
        ast::Statement::Break => if s.loops.len() == 0 {
            None
        } else {
            Some((true, emit(s, OpView::Jump { block: s.loops.last().1, args: seq![] })))
        },
        ast::Statement::Continue => if s.loops.len() == 0 {
            None
        } else {
            Some((true, emit(s, OpView::Jump { block: s.loops.last().0, args: seq![] })))
        },
        _ => None,
    }
}

// ---------------------------------------------------------------------------
// Functions
// ---------------------------------------------------------------------------

/// The plan of one function: its name, its signature and its calls.
pub ghost struct FnPlanView {
    pub name: Seq<char>,
    pub params: Seq<MachineType>,
    pub ret: Option<MachineType>,
    pub ops: Seq<OpView>,
}

/// The machine types of the first `n` parameters of a function; each must
/// have one.
pub open spec fn param_types<'src>(ps: Seq<ast::Param<'src>>, n: int) -> Option<Seq<MachineType>>
    decreases n,
{
    if n <= 0 || n > ps.len() {
        Some(Seq::empty())
    } else {
        match param_types(ps, n - 1) {
            None => None,
            Some(tys) => match spec_machine_type(ps[n - 1].ty) {
                Some(t) => Some(tys.push(t)),
                None => None,
            },
        }
    }
}

/// The machine types of the first `n` parameters of a closure, skipping
/// those of type `void`; none may be of a named type.
pub open spec fn present_types<'src>(ps: Seq<ast::Param<'src>>, n: int) -> Option<Seq<MachineType>>
    decreases n,
{
    if n <= 0 || n > ps.len() {
        Some(Seq::empty())
    } else {
        match present_types(ps, n - 1) {
            None => None,
            Some(tys) => if ps[n - 1].ty is Ident {
                None
            } else {
                match spec_machine_type(ps[n - 1].ty) {
                    Some(t) => Some(tys.push(t)),
                    None => Some(tys),
                }
            },
        }
    }
}

/// The entry block's calls: created, given the function's parameters,
/// switched to and sealed.
pub open spec fn entry_block(s: PlanState) -> (nat, PlanState) {
    let (b0, s1) = block_op(s);
    (
        b0,
        emit(
            emit(emit(s1, OpView::AppendFunctionParams { block: b0 }), OpView::SwitchToBlock { block: b0 }),
            OpView::SealBlock { block: b0 },
        ),
    )
}

/// The first `n` parameters of a function bound to variables: the `i`-th
/// parameter of the entry block `b0` is given to the variable of the
/// parameter's name, declared unless one of that name exists.
pub open spec fn bind_params<'src>(s: PlanState, ps: Seq<ast::Param<'src>>, n: int, b0: nat) -> Option<
    PlanState,
>
    decreases n,
{
    if n <= 0 || n > ps.len() {
        Some(s)
    } else {
        match bind_params(s, ps, n - 1, b0) {
            None => None,
            Some(s1) => {
                let (val, s2) = value_op(s1, OpView::BlockParam { block: b0, index: (n - 1) as nat });
                match spec_machine_type(ps[n - 1].ty) {
                    None => None,
                    Some(ty) => {
                        let (var, s3) = match lookup(s2.variables, ps[n - 1].name.inner@) {
                            Some(v) => (v, s2),
                            None => {
                                let (v, t) = var_op(s2, OpView::DeclareVar { ty });
                                (v, with_variable(t, ps[n - 1].name.inner@, v))
                            },
                        };
                        Some(emit(s3, OpView::DefVar { var, value: val }))
                    },
                }
            },
        }
    }
}

/// The first `n` parameters of a closure bound to new variables: a
/// parameter that is not `void` takes the entry block's parameter after the
/// environment pointer at its own index, which must exist among the
/// `sig_len` parameters of the trampoline.
pub open spec fn bind_closure_params<'src>(
    s: PlanState,
    ps: Seq<ast::Param<'src>>,
    n: int,
    b0: nat,
    sig_len: nat,
) -> Option<PlanState>
    decreases n,
{
    if n <= 0 || n > ps.len() {
        Some(s)
    } else {
        match bind_closure_params(s, ps, n - 1, b0, sig_len) {
            None => None,
            Some(s1) => if ps[n - 1].ty is Ident {
                None
            } else {
                match spec_machine_type(ps[n - 1].ty) {
                    None => Some(s1),
                    Some(ty) => if n >= sig_len {
                        None
                    } else {
                        let (val, s2) = value_op(s1, OpView::BlockParam { block: b0, index: n as nat });
                        let (var, s3) = var_op(s2, OpView::DeclareVar { ty });
                        let s4 = emit(s3, OpView::DefVar { var, value: val });
                        Some(with_variable(s4, ps[n - 1].name.inner@, var))
                    },
                }
            },
        }
    }
}

/// The captured variables of a closure loaded from its environment `env_ptr`
/// in its trampoline: a mutably captured variable through the pointer
/// stored for it (which is kept in a variable of its own), any other
/// directly; variables of type `void` are skipped.
pub open spec fn load_captures<'src>(
    env: PlanEnv,
    s: PlanState,
    caps: Seq<(String, ast::TypeKind<'src>, bool)>,
    n: int,
    env_ptr: nat,
) -> Option<PlanState>
    decreases n,
{
    if n <= 0 || n > caps.len() {
        Some(s)
    } else {
        match load_captures(env, s, caps, n - 1, env_ptr) {
            None => None,
            Some(s1) => {
                let (name, ty, is_mutable) = caps[n - 1];
                if ty is Ident {
                    None
                } else {
                    match spec_machine_type(ty) {
                        None => Some(s1),
                        Some(cl_ty) => if ((n - 1) as i32) * (env.ptr_size as i32) > i32::MAX || ((n
                            - 1) as i32) * (env.ptr_size as i32) < i32::MIN {
                            None
                        } else {
                            let offset = (((n - 1) as i32) * (env.ptr_size as i32)) as i32;
                            if is_mutable {
                                let (pv, s2) = value_op(
                                    s1,
                                    OpView::Load { ty: MachineType::Pointer, base: env_ptr, offset },
                                );
                                let (pvar, s3) = var_op(s2, OpView::DeclareVar { ty: MachineType::Pointer });
                                let s4 = emit(s3, OpView::DefVar { var: pvar, value: pv });
                                let s5 = PlanState { capture_ptrs: s4.capture_ptrs.push((name@, pvar)), ..s4 };
                                let (val, s6) = value_op(s5, OpView::Load { ty: cl_ty, base: pv, offset: 0 });
                                let (var, s7) = var_op(s6, OpView::DeclareVar { ty: cl_ty });
                                let s8 = emit(s7, OpView::DefVar { var, value: val });
                                Some(with_variable(s8, name@, var))
                            } else {
                                let (val, s2) = value_op(s1, OpView::Load { ty: cl_ty, base: env_ptr, offset });
                                let (var, s3) = var_op(s2, OpView::DeclareVar { ty: cl_ty });
                                let s4 = emit(s3, OpView::DefVar { var, value: val });
                                Some(with_variable(s4, name@, var))
                            }
                        },
                    }
                }
            },
        }
    }
}

/// A body: every statement but the last, then the last — a `return` as it
/// is; an expression whose value is returned when the function returns one;
/// any other statement followed by a return of nothing when the function
/// returns nothing. An empty body returns nothing; in a function (not a
/// closure) that returns a value it is not handled.
pub open spec fn plan_body<'src>(
    env: PlanEnv,
    s: PlanState,
    ss: Seq<ast::Statement<'src>>,
    ret: Option<MachineType>,
    is_closure: bool,
) -> Option<PlanState> {
    if ss.len() == 0 {
        if ret is None || is_closure {
            Some(emit(s, OpView::Return { values: seq![] }))
        } else {
            None
        }
    } else {
        match plan_stmts(env, s, ss, ss.len() - 1) {
            None => None,
            Some((_, s1)) => {
                let last = ss[ss.len() - 1];
                if last is Return {
                    match plan_stmt(env, s1, last) {
                        Some((_, s2)) => Some(s2),
                        None => None,
                    }
                } else if last is Expr && ret is Some {
                    match plan_expr(env, s1, last->Expr_0) {
                        Some((Some(v), s2)) => Some(emit(s2, OpView::Return { values: seq![v] })),
                        _ => None,
                    }
                } else {
                    match plan_stmt(env, s1, last) {
                        Some((_, s2)) => if ret is None {
                            Some(emit(s2, OpView::Return { values: seq![] }))
                        } else {
                            Some(s2)
                        },
                        None => None,
                    }
                }
            },
        }
    }
}

/// The body of the runtime's print function: a call of the runtime's
/// `rt_print_str` with the parameter `message`, and a return of nothing.
pub open spec fn plan_print(env: PlanEnv, s: PlanState) -> Option<PlanState> {
    match callee_returns(env.callees, "rt_print_str"@) {
        None => None,
        Some(r) => {
            let (f, s1) = func_op(s, "rt_print_str"@);
            match lookup(s1.variables, "message"@) {
                None => None,
                Some(var) => {
                    let (v, s2) = value_op(s1, OpView::UseVar { var });
                    let op = OpView::Call { func: f, args: seq![v], has_result: r };
                    let s3 = if r {
                        value_op(s2, op).1
                    } else {
                        emit(s2, op)
                    };
                    Some(emit(s3, OpView::Return { values: seq![] }))
                },
            }
        },
    }
}

// ---------------------------------------------------------------------------
// What the code generator refuses outright
// ---------------------------------------------------------------------------

/// Whether an expression stays clear of what the code generator refuses
/// outright: the `And` and `Exp` operators, and, unless `in_loop`, a `break`
/// or `continue` outside a loop in a branch of an `if`.
pub open spec fn expr_supported<'src>(e: ast::Expr<'src>, in_loop: bool) -> bool
    decreases e, 0int,
{
    match e {
        ast::Expr::StringInterpolation(parts) => exprs_supported(parts@, parts@.len() as int, in_loop),
        ast::Expr::Binary { op, left, right, .. } => op != ast::BinaryOp::Exp && op != ast::BinaryOp::And
            && expr_supported(*left, in_loop) && expr_supported(*right, in_loop),
        ast::Expr::Call { call, .. } => exprs_supported(call.args@, call.args@.len() as int, in_loop),
        ast::Expr::If { cond, then, else_block, .. } => expr_supported(*cond, in_loop) && block_supported(
            then,
            in_loop,
        ) && match else_block {
            Some(b) => block_supported(b, in_loop),
            None => true,
        },
        _ => true,
    }
}

/// Whether the first `n` expressions stay clear of what the code generator
/// refuses outright.
pub open spec fn exprs_supported<'src>(es: Seq<ast::Expr<'src>>, n: int, in_loop: bool) -> bool
    decreases es, n,
{
    if n <= 0 || n > es.len() {
        true
    } else {
        exprs_supported(es, n - 1, in_loop) && expr_supported(es[n - 1], in_loop)
    }
}

/// Whether the statements of a block stay clear of what the code generator
/// refuses outright.
pub open spec fn block_supported<'src>(b: ast::Block<'src>, in_loop: bool) -> bool
    decreases b, 0int,
{
    stmts_supported(b.statements@, b.statements@.len() as int, in_loop)
}

/// Whether the first `n` statements stay clear of what the code generator
/// refuses outright.
pub open spec fn stmts_supported<'src>(ss: Seq<ast::Statement<'src>>, n: int, in_loop: bool) -> bool
    decreases ss, n,
{
    if n <= 0 || n > ss.len() {
        true
    } else {
        stmts_supported(ss, n - 1, in_loop) && stmt_supported(ss[n - 1], in_loop)
    }
}

/// Whether a statement stays clear of what the code generator refuses
/// outright: a `break` or `continue` is only for inside a loop.
pub open spec fn stmt_supported<'src>(st: ast::Statement<'src>, in_loop: bool) -> bool
    decreases st, 0int,
{
    match st {
        ast::Statement::Let { expr, .. } => expr_supported(expr, in_loop),
        ast::Statement::Assign { expr, .. } => expr_supported(expr, in_loop),
        ast::Statement::Return { expr } => match expr {
            Some(e) => expr_supported(e, in_loop),
            None => true,
        },
        ast::Statement::Expr(e) => expr_supported(e, in_loop),
        ast::Statement::ForLoop { cond, block } => (match cond {
            Some(c) => expr_supported(c, true),
            None => true,
        }) && block_supported(block, true),
        ast::Statement::Break => in_loop,
        ast::Statement::Continue => in_loop,
        _ => true,
    }
}

/// Whether a function stays clear of what the code generator refuses
/// outright; besides what its statements must avoid, a function that returns
/// a value must not have an empty body.
pub open spec fn function_supported<'src>(f: ast::Function<'src>) -> bool {
    f.name@ == "std.io.print"@ || (block_supported(f.body, false) && (f.body.statements@.len() > 0
        || spec_machine_type(f.ret_ty) is None))
}

/// Whether the body of a closure stays clear of what the code generator
/// refuses outright.
pub open spec fn closure_supported<'src>(c: ast::Expr<'src>) -> bool {
    match c {
        ast::Expr::Closure { body, .. } => block_supported(body, false),
        _ => true,
    }
}

/// Whether every function and every closure of a program stays clear of what
/// the code generator refuses outright (where it panics): a `break` or
/// `continue` outside a loop, the `And` or `Exp` operator, or an empty body in
/// a function that returns a value.
pub open spec fn program_supported<'src>(p: ast::Program<'src>) -> bool {
    let ds = p.declarations@;
    let fs = functions_of(ds, ds.len() as int);
    let cs = closures_in_decls(ds, ds.len() as int);
    &&& forall|i: int| 0 <= i < fs.len() ==> function_supported(#[trigger] fs[i])
    &&& forall|i: int| 0 <= i < cs.len() ==> closure_supported(#[trigger] cs[i])
}

/// The plan of a function of the program.
pub open spec fn plan_function<'src>(env: PlanEnv, f: ast::Function<'src>) -> Option<FnPlanView> {
    match param_types(f.params@, f.params@.len() as int) {
        None => None,
        Some(params) => if f.ret_ty is Ident {
            None
        } else {
            let ret = spec_machine_type(f.ret_ty);
            let (b0, s1) = entry_block(empty_state());
            match bind_params(s1, f.params@, f.params@.len() as int, b0) {
                None => None,
                Some(s2) => {
                    let end = if f.name@ == "std.io.print"@ {
                        plan_print(env, s2)
                    } else {
                        plan_body(env, s2, f.body.statements@, ret, false)
                    };
                    match end {
                        None => None,
                        Some(s3) => Some(FnPlanView { name: f.name@, params, ret, ops: s3.ops }),
                    }
                },
            }
        },
    }
}

/// The plan of a closure's trampoline: it takes the environment pointer
/// before the closure's parameters, loads the captured variables and runs
/// the closure's body.
pub open spec fn plan_trampoline<'src>(env: PlanEnv, c: ast::Expr<'src>) -> Option<FnPlanView> {
    match c {
        ast::Expr::Closure { mangled_name, params, ret_ty, body, captures } => match present_types(
            params@,
            params@.len() as int,
        ) {
            None => None,
            Some(tys) => if ret_ty is Ident {
                None
            } else {
                let sig = seq![MachineType::Pointer] + tys;
                let ret = spec_machine_type(ret_ty);
                let (b0, s1) = entry_block(empty_state());
                let (env_ptr, s2) = value_op(s1, OpView::BlockParam { block: b0, index: 0 });
                match bind_closure_params(s2, params@, params@.len() as int, b0, sig.len()) {
                    None => None,
                    Some(s3) => match load_captures(env, s3, captures@, captures@.len() as int, env_ptr) {
                        None => None,
                        Some(s4) => match plan_body(env, s4, body.statements@, ret, true) {
                            None => None,
                            Some(s5) => Some(
                                FnPlanView {
                                    name: mangled_name@ + "__trampoline"@,
                                    params: sig,
                                    ret,
                                    ops: s5.ops,
                                },
                            ),
                        },
                    },
                }
            },
        },
        _ => None,
    }
}

// ---------------------------------------------------------------------------
// Programs
// ---------------------------------------------------------------------------

/// A function declared to the code generator: its name, linkage and
/// signature.
pub ghost struct DeclView {
    pub name: Seq<char>,
    pub linkage: Linkage,
    pub params: Seq<MachineType>,
    pub ret: Option<MachineType>,
}

/// The plan of a program: the functions it declares, in order, and the
/// bodies it then compiles, in order.
pub ghost struct ProgramPlanView {
    pub declarations: Seq<DeclView>,
    pub bodies: Seq<FnPlanView>,
}

/// The runtime's functions, declared first: printing a string,
/// concatenating two strings, and formatting an integer.
pub open spec fn runtime_decls() -> Seq<DeclView> {
    seq![
        DeclView {
            name: "rt_print_str"@,
            linkage: Linkage::Import,
            params: seq![MachineType::Pointer],
            ret: None,
        },
        DeclView {
            name: "rt_concat"@,
            linkage: Linkage::Import,
            params: seq![MachineType::Pointer, MachineType::Pointer],
            ret: Some(MachineType::Pointer),
        },
        DeclView {
            name: "rt_int_to_str"@,
            linkage: Linkage::Import,
            params: seq![MachineType::Pointer],
            ret: Some(MachineType::Pointer),
        },
    ]
}

/// The functions among the first `n` declarations, in order.
pub open spec fn functions_of<'src>(ds: Seq<ast::Declaration<'src>>, n: int) -> Seq<ast::Function<'src>>
    decreases n,
{
    if n <= 0 || n > ds.len() {
        Seq::empty()
    } else {
        let fs = functions_of(ds, n - 1);
        match ds[n - 1] {
            ast::Declaration::Function(f) => fs.push(f),
            _ => fs,
        }
    }
}

/// How a function is linked: public functions and `main` are exported.
pub open spec fn spec_linkage<'src>(f: ast::Function<'src>) -> Linkage {
    if f.public || f.name@ == "main"@ {
        Linkage::Export
    } else {
        Linkage::Local
    }
}

/// The declaration of a function; `None` when a parameter has no machine
/// type or the return type is a named type.
pub open spec fn function_decl<'src>(f: ast::Function<'src>) -> Option<DeclView> {
    match param_types(f.params@, f.params@.len() as int) {
        Some(params) => if f.ret_ty is Ident {
            None
        } else {
            Some(DeclView { name: f.name@, linkage: spec_linkage(f), params, ret: spec_machine_type(f.ret_ty) })
        },
        None => None,
    }
}

/// The declaration of a closure's trampoline, local to the object file.
pub open spec fn trampoline_decl<'src>(c: ast::Expr<'src>) -> Option<DeclView> {
    match c {
        ast::Expr::Closure { mangled_name, params, ret_ty, .. } => match present_types(
            params@,
            params@.len() as int,
        ) {
            Some(tys) => if ret_ty is Ident {
                None
            } else {
                Some(
                    DeclView {
                        name: mangled_name@ + "__trampoline"@,
                        linkage: Linkage::Local,
                        params: seq![MachineType::Pointer] + tys,
                        ret: spec_machine_type(ret_ty),
                    },
                )
            },
            None => None,
        },
        _ => None,
    }
}

/// The declarations of the first `n` functions.
pub open spec fn function_decls<'src>(fs: Seq<ast::Function<'src>>, n: int) -> Option<Seq<DeclView>>
    decreases n,
{
    if n <= 0 || n > fs.len() {
        Some(Seq::empty())
    } else {
        match (function_decls(fs, n - 1), function_decl(fs[n - 1])) {
            (Some(ds), Some(d)) => Some(ds.push(d)),
            _ => None,
        }
    }
}

/// The declarations of the trampolines of the first `n` closures.
pub open spec fn trampoline_decls<'src>(cs: Seq<ast::Expr<'src>>, n: int) -> Option<Seq<DeclView>>
    decreases n,
{
    if n <= 0 || n > cs.len() {
        Some(Seq::empty())
    } else {
        match (trampoline_decls(cs, n - 1), trampoline_decl(cs[n - 1])) {
            (Some(ds), Some(d)) => Some(ds.push(d)),
            _ => None,
        }
    }
}

/// The declared functions by name, with whether each returns a value.
pub open spec fn callees_of(ds: Seq<DeclView>) -> Seq<(Seq<char>, bool)> {
    ds.map_values(|d: DeclView| (d.name, d.ret is Some))
}

/// The plans of the trampolines of the first `n` closures.
pub open spec fn plan_trampolines<'src>(env: PlanEnv, cs: Seq<ast::Expr<'src>>, n: int) -> Option<Seq<FnPlanView>>
    decreases n,
{
    if n <= 0 || n > cs.len() {
        Some(Seq::empty())
    } else {
        match (plan_trampolines(env, cs, n - 1), plan_trampoline(env, cs[n - 1])) {
            (Some(ps), Some(p)) => Some(ps.push(p)),
            _ => None,
        }
    }
}

/// The plans of the first `n` functions.
pub open spec fn plan_functions<'src>(env: PlanEnv, fs: Seq<ast::Function<'src>>, n: int) -> Option<Seq<FnPlanView>>
    decreases n,
{
    if n <= 0 || n > fs.len() {
        Some(Seq::empty())
    } else {
        match (plan_functions(env, fs, n - 1), plan_function(env, fs[n - 1])) {
            (Some(ps), Some(p)) => Some(ps.push(p)),
            _ => None,
        }
    }
}

/// The plan of a program for a target whose pointers take `ptr_size` bytes.
/// The program must have a `main` function. The runtime's functions, the
/// program's functions and the trampolines of its closures are declared in
/// that order; the trampolines are compiled first, then the functions.
pub open spec fn plan_program_spec<'src>(p: ast::Program<'src>, ptr_size: u32) -> Option<ProgramPlanView> {
    let ds = p.declarations@;
    let fs = functions_of(ds, ds.len() as int);
    let cs = closures_in_decls(ds, ds.len() as int);
    if !(exists|i: int| 0 <= i < fs.len() && #[trigger] fs[i].name@ == "main"@) {
        None
    } else {
        match (function_decls(fs, fs.len() as int), trampoline_decls(cs, cs.len() as int)) {
            (Some(fd), Some(td)) => {
                let decls = runtime_decls() + fd + td;
                let env = PlanEnv { ptr_size, callees: callees_of(decls) };
                match (
                    plan_trampolines(env, cs, cs.len() as int),
                    plan_functions(env, fs, fs.len() as int),
                ) {
                    (Some(tb), Some(fb)) => Some(ProgramPlanView { declarations: decls, bodies: tb + fb }),
                    _ => None,
                }
            },
            _ => None,
        }
    }
}

// ---------------------------------------------------------------------------
// The planner
// ---------------------------------------------------------------------------

/// Named entries as numbers.
pub open spec fn entries_view(v: Seq<(String, usize)>) -> Seq<(Seq<char>, nat)> {
    v.map_values(|p: (String, usize)| (p.0@, p.1 as nat))
}

/// Declared functions by name.
pub open spec fn callees_view(v: Seq<(String, bool)>) -> Seq<(Seq<char>, bool)> {
    v.map_values(|p: (String, bool)| (p.0@, p.1))
}

/// Captured variables' slots by name.
pub open spec fn slots_view(v: Seq<(String, usize, usize)>) -> Seq<(Seq<char>, nat, nat)> {
    v.map_values(|p: (String, usize, usize)| (p.0@, p.1 as nat, p.2 as nat))
}

/// Loops as numbers.
pub open spec fn loops_view(v: Seq<(usize, usize)>) -> Seq<(nat, nat)> {
    v.map_values(|p: (usize, usize)| (p.0 as nat, p.1 as nat))
}

/// An optional number.
pub open spec fn nat_opt(r: Option<usize>) -> Option<nat> {
    match r {
        Some(x) => Some(x as nat),
        None => None,
    }
}

/// The latest entry of a name.
fn find_latest(entries: &Vec<(String, usize)>, name: &str) -> (r: Option<usize>)
    ensures
        nat_opt(r) == lookup(entries_view(entries@), name@),
{
    let ghost view = entries_view(entries@);
    let mut i = entries.len();
    assert(view.subrange(0, view.len() as int) =~= view);
    while i > 0
        invariant
            i <= entries@.len(),
            view == entries_view(entries@),
            lookup(view, name@) == lookup(view.subrange(0, i as int), name@),
        decreases i,
    {
        let entry = &entries[i - 1];
        proof {
            let sub = view.subrange(0, i as int);
            assert(sub.last() == (entry.0@, entry.1 as nat));
            assert(sub.drop_last() =~= view.subrange(0, i - 1));
        }
        if crate::utils::str_eq(entry.0.as_str(), name) {
            return Some(entry.1);
        }
        i = i - 1;
    }
    None
}

/// Whether the declared function of a name returns a value.
fn find_callee(callees: &Vec<(String, bool)>, name: &str) -> (r: Option<bool>)
    ensures
        r == callee_returns(callees_view(callees@), name@),
{
    let ghost view = callees_view(callees@);
    let mut i: usize = 0;
    assert(view.subrange(0, view.len() as int) =~= view);
    while i < callees.len()
        invariant
            i <= callees@.len(),
            view == callees_view(callees@),
            callee_returns(view, name@) == callee_returns(view.subrange(i as int, view.len() as int), name@),
        decreases callees@.len() - i,
    {
        let entry = &callees[i];
        proof {
            let sub = view.subrange(i as int, view.len() as int);
            assert(sub[0] == (entry.0@, entry.1));
            assert(sub.drop_first() =~= view.subrange(i + 1, view.len() as int));
        }
        if crate::utils::str_eq(entry.0.as_str(), name) {
            return Some(entry.1);
        }
        i = i + 1;
    }
    None
}

/// The slot of a mutably captured variable.
fn find_slot(slots: &Vec<(String, usize, usize)>, name: &str) -> (r: Option<(usize, usize)>)
    ensures
        match slot_of(slots_view(slots@), name@) {
            Some((s, l)) => r == Some((s as usize, l as usize)) && s <= usize::MAX && l <= usize::MAX,
            None => r is None,
        },
{
    let ghost view = slots_view(slots@);
    let mut i: usize = 0;
    assert(view.subrange(0, view.len() as int) =~= view);
    while i < slots.len()
        invariant
            i <= slots@.len(),
            view == slots_view(slots@),
            slot_of(view, name@) == slot_of(view.subrange(i as int, view.len() as int), name@),
        decreases slots@.len() - i,
    {
        let entry = &slots[i];
        proof {
            let sub = view.subrange(i as int, view.len() as int);
            assert(sub[0] == (entry.0@, entry.1 as nat, entry.2 as nat));
            assert(sub.drop_first() =~= view.subrange(i + 1, view.len() as int));
        }
        if crate::utils::str_eq(entry.0.as_str(), name) {
            return Some((entry.1, entry.2));
        }
        i = i + 1;
    }
    None
}

/// What the planner of a function knows of the program.
struct Env {
    ptr_size: u32,
    callees: Vec<(String, bool)>,
}

impl Env {
    spec fn view(&self) -> PlanEnv {
        PlanEnv { ptr_size: self.ptr_size, callees: callees_view(self.callees@) }
    }
}

/// The planning of one function.
struct Planner {
    ops: Vec<Op>,
    values: usize,
    blocks: usize,
    vars: usize,
    slots: usize,
    funcs: usize,
    variables: Vec<(String, usize)>,
    loops: Vec<(usize, usize)>,
    capture_slots: Vec<(String, usize, usize)>,
    capture_ptrs: Vec<(String, usize)>,
}

impl Planner {
    spec fn state(&self) -> PlanState {
        PlanState {
            ops: self.ops@.map_values(|o: Op| o@),
            values: self.values as nat,
            blocks: self.blocks as nat,
            vars: self.vars as nat,
            slots: self.slots as nat,
            funcs: self.funcs as nat,
            variables: entries_view(self.variables@),
            loops: loops_view(self.loops@),
            capture_slots: slots_view(self.capture_slots@),
            capture_ptrs: entries_view(self.capture_ptrs@),
        }
    }

    /// Everything the calls created was created by a call.
    spec fn wf(&self) -> bool {
        self.values + self.blocks + self.vars + self.slots + self.funcs <= self.ops@.len()
    }

    fn new() -> (p: Self)
        ensures
            p.wf(),
            p.state() == empty_state(),
    {
        let p = Planner {
            ops: Vec::new(),
            values: 0,
            blocks: 0,
            vars: 0,
            slots: 0,
            funcs: 0,
            variables: Vec::new(),
            loops: Vec::new(),
            capture_slots: Vec::new(),
            capture_ptrs: Vec::new(),
        };
        assert(p.state() =~= empty_state()) by {
            assert(p.ops@.map_values(|o: Op| o@) =~= Seq::<OpView>::empty());
            assert(entries_view(p.variables@) =~= Seq::<(Seq<char>, nat)>::empty());
            assert(loops_view(p.loops@) =~= Seq::<(nat, nat)>::empty());
            assert(slots_view(p.capture_slots@) =~= Seq::<(Seq<char>, nat, nat)>::empty());
            assert(entries_view(p.capture_ptrs@) =~= Seq::<(Seq<char>, nat)>::empty());
        }
        p
    }

    fn push(&mut self, op: Op)
        requires
            old(self).wf(),
        ensures
            final(self).loops@ == old(self).loops@,
            final(self).capture_slots@ == old(self).capture_slots@,
            final(self).wf(),
            final(self).state() == emit(old(self).state(), op@),
            final(self).ops@.len() == old(self).ops@.len() + 1,
    {
        self.ops.push(op);
        assert(self.ops@.map_values(|o: Op| o@) =~= old(self).ops@.map_values(|o: Op| o@).push(op@));
    }

    fn new_value(&mut self, op: Op) -> (v: usize)
        requires
            old(self).wf(),
        ensures
            final(self).loops@ == old(self).loops@,
            final(self).capture_slots@ == old(self).capture_slots@,
            final(self).wf(),
            value_op(old(self).state(), op@) == (v as nat, final(self).state()),
    {
        self.push(op);
        let _n = self.ops.len();
        let v = self.values;
        self.values = self.values + 1;
        v
    }

    fn new_block(&mut self) -> (b: usize)
        requires
            old(self).wf(),
        ensures
            final(self).loops@ == old(self).loops@,
            final(self).capture_slots@ == old(self).capture_slots@,
            final(self).wf(),
            block_op(old(self).state()) == (b as nat, final(self).state()),
    {
        self.push(Op::CreateBlock);
        let _n = self.ops.len();
        let b = self.blocks;
        self.blocks = self.blocks + 1;
        b
    }

    fn new_var(&mut self, op: Op) -> (v: usize)
        requires
            old(self).wf(),
        ensures
            final(self).loops@ == old(self).loops@,
            final(self).capture_slots@ == old(self).capture_slots@,
            final(self).wf(),
            var_op(old(self).state(), op@) == (v as nat, final(self).state()),
    {
        self.push(op);
        let _n = self.ops.len();
        let v = self.vars;
        self.vars = self.vars + 1;
        v
    }

    fn new_slot(&mut self, op: Op) -> (v: usize)
        requires
            old(self).wf(),
        ensures
            final(self).loops@ == old(self).loops@,
            final(self).capture_slots@ == old(self).capture_slots@,
            final(self).wf(),
            slot_op(old(self).state(), op@) == (v as nat, final(self).state()),
    {
        self.push(op);
        let _n = self.ops.len();
        let v = self.slots;
        self.slots = self.slots + 1;
        v
    }

    fn new_func(&mut self, name: &str) -> (f: usize)
        requires
            old(self).wf(),
        ensures
            final(self).loops@ == old(self).loops@,
            final(self).capture_slots@ == old(self).capture_slots@,
            final(self).wf(),
            func_op(old(self).state(), name@) == (f as nat, final(self).state()),
    {
        self.push(Op::DeclareFunc { name: name.to_string() });
        let _n = self.ops.len();
        let f = self.funcs;
        self.funcs = self.funcs + 1;
        f
    }

    fn add_variable(&mut self, name: &str, var: usize)
        ensures
            final(self).loops@ == old(self).loops@,
            final(self).capture_slots@ == old(self).capture_slots@,
            final(self).wf() == old(self).wf(),
            final(self).state() == with_variable(old(self).state(), name@, var as nat),
    {
        self.variables.push((name.to_string(), var));
        assert(entries_view(self.variables@) =~= entries_view(old(self).variables@).push(
            (name@, var as nat),
        ));
    }
}

// ---------------------------------------------------------------------------
// Planning expressions and statements
// ---------------------------------------------------------------------------

/// A planning step that gives an optional value agrees with its statement.
pub open spec fn agrees_val(spec: Option<(Option<nat>, PlanState)>, r: Option<Option<usize>>, s: PlanState) -> bool {
    match r {
        None => spec is None,
        Some(v) => spec == Some((nat_opt(v), s)),
    }
}

/// A planning step that gives a value agrees with its statement.
pub open spec fn agrees_nat(spec: Option<(nat, PlanState)>, r: Option<usize>, s: PlanState) -> bool {
    match r {
        None => spec is None,
        Some(v) => spec == Some((v as nat, s)),
    }
}

/// A planning step that gives values agrees with its statement.
pub open spec fn agrees_ids(spec: Option<(Seq<nat>, PlanState)>, r: Option<Vec<usize>>, s: PlanState) -> bool {
    match r {
        None => spec is None,
        Some(v) => spec == Some((ids(v@), s)),
    }
}

/// A planning step that gives a flag agrees with its statement.
pub open spec fn agrees_flag(spec: Option<(bool, PlanState)>, r: Option<bool>, s: PlanState) -> bool {
    match r {
        None => spec is None,
        Some(b) => spec == Some((b, s)),
    }
}

/// A planning step that gives only a state agrees with its statement.
pub open spec fn agrees_state(spec: Option<PlanState>, ok: bool, s: PlanState) -> bool {
    if ok {
        spec == Some(s)
    } else {
        spec is None
    }
}

fn no_ids() -> (v: Vec<usize>)
    ensures
        ids(v@) == Seq::<nat>::empty(),
{
    let v: Vec<usize> = Vec::new();
    assert(ids(v@) =~= Seq::<nat>::empty());
    v
}

fn one_id(x: usize) -> (v: Vec<usize>)
    ensures
        ids(v@) == seq![x as nat],
{
    let mut v: Vec<usize> = Vec::new();
    v.push(x);
    assert(ids(v@) =~= seq![x as nat]);
    v
}

fn two_ids(x: usize, y: usize) -> (v: Vec<usize>)
    ensures
        ids(v@) == seq![x as nat, y as nat],
{
    let mut v: Vec<usize> = Vec::new();
    v.push(x);
    v.push(y);
    assert(ids(v@) =~= seq![x as nat, y as nat]);
    v
}

/// The machine types of the first `n` arguments of a closure call.
fn arg_types_of<'src>(es: &Vec<ast::Expr<'src>>, n: usize) -> (r: Option<Vec<MachineType>>)
    requires
        n <= es@.len(),
    ensures
        match arg_types(es@, n as int) {
            Some(t) => r is Some && r->0@ == t,
            None => r is None,
        },
    decreases n,
{
    if n == 0 {
        return Some(Vec::new());
    }
    let mut tys = match arg_types_of(es, n - 1) {
        Some(t) => t,
        None => return None,
    };
    if let ast::Expr::StructInstance { .. } = &es[n - 1] {
        return None;
    }
    let ty = es[n - 1].ty();
    if let ast::TypeKind::Ident(_) = ty {
        return None;
    }
    match crate::codegen::type_from_ast(ty) {
        Some(t) => tys.push(t),
        None => {},
    }
    Some(tys)
}

impl Planner {
    fn call_for_value(&mut self, env: &Env, name: &str, args: Vec<usize>) -> (r: Option<usize>)
        requires
            old(self).wf(),
        ensures
            final(self).wf(),
            final(self).loops@ == old(self).loops@,
            agrees_nat(call_for_value(env.view(), old(self).state(), name@, ids(args@)), r, final(self).state()),
    {
        match find_callee(&env.callees, name) {
            Some(true) => {
                let f = self.new_func(name);
                let v = self.new_value(Op::Call { func: f, args, has_result: true });
                Some(v)
            },
            _ => None,
        }
    }

    /// After a closure call, the mutably captured variables get their values
    /// back from their stack slots.
    fn reload(&mut self)
        requires
            old(self).wf(),
        ensures
            final(self).wf(),
            final(self).loops@ == old(self).loops@,
            final(self).state() == reload(
                old(self).state(),
                old(self).state().capture_slots,
                old(self).state().capture_slots.len() as int,
            ),
    {
        let ghost s0 = self.state();
        let ghost slots = s0.capture_slots;
        let mut i: usize = 0;
        while i < self.capture_slots.len()
            invariant
                self.wf(),
                self.loops@ == old(self).loops@,
                slots == slots_view(self.capture_slots@),
                slots == s0.capture_slots,
                i <= slots.len(),
                self.state() == reload(s0, slots, i as int),
            decreases slots.len() - i,
        {
            let slot = self.capture_slots[i].1;
            let like = self.capture_slots[i].2;
            let found = find_latest(&self.variables, self.capture_slots[i].0.as_str());
            match found {
                Some(var) => {
                    let v = self.new_value(Op::StackLoadLike { slot, like });
                    self.push(Op::DefVar { var, value: v });
                },
                None => {},
            }
            i = i + 1;
        }
    }

    fn store_captures<'src>(
        &mut self,
        env: &Env,
        caps: &Vec<(String, ast::TypeKind<'src>, bool)>,
        n: usize,
        env_slot: usize,
    ) -> (ok: bool)
        requires
            old(self).wf(),
            n <= caps@.len(),
        ensures
            final(self).wf(),
            final(self).loops@ == old(self).loops@,
            agrees_state(
                store_captures(env.view(), old(self).state(), capture_modes(caps@), n as int, env_slot as nat),
                ok,
                final(self).state(),
            ),
        decreases n,
    {
        if n == 0 {
            return true;
        }
        if !self.store_captures(env, caps, n - 1, env_slot) {
            return false;
        }
        let entry = &caps[n - 1];
        let offset = match ((n - 1) as u32).checked_mul(env.ptr_size) {
            Some(x) => x as i32,
            None => return false,
        };
        let var = match find_latest(&self.variables, entry.0.as_str()) {
            Some(v) => v,
            None => return false,
        };
        let cur = self.new_value(Op::UseVar { var });
        if entry.2 {
            let slot = match find_slot(&self.capture_slots, entry.0.as_str()) {
                Some((sl, _)) => sl,
                None => {
                    let sl = self.new_slot(Op::CreateSlotLike { value: cur });
                    let ghost before = self.capture_slots@;
                    self.capture_slots.push((entry.0.as_str().to_string(), sl, cur));
                    assert(slots_view(self.capture_slots@) =~= slots_view(before).push(
                        (entry.0@, sl as nat, cur as nat),
                    ));
                    sl
                },
            };
            self.push(Op::StackStore { value: cur, slot, offset: 0 });
            let ptr = self.new_value(Op::StackAddr { slot });
            self.push(Op::StackStore { value: ptr, slot: env_slot, offset });
        } else {
            self.push(Op::StackStore { value: cur, slot: env_slot, offset });
        }
        true
    }

    fn plan_closure<'src>(
        &mut self,
        env: &Env,
        mangled_name: &str,
        captures: &Vec<(String, ast::TypeKind<'src>, bool)>,
    ) -> (r: Option<Option<usize>>)
        requires
            old(self).wf(),
        ensures
            final(self).wf(),
            final(self).loops@ == old(self).loops@,
            agrees_val(
                plan_closure(env.view(), old(self).state(), mangled_name@, capture_modes(captures@)),
                r,
                final(self).state(),
            ),
    {
        let name = crate::utils::concat(mangled_name, "__trampoline");
        match find_callee(&env.callees, name.as_str()) {
            Some(_) => {},
            None => return None,
        }
        let f = self.new_func(name.as_str());
        let fn_ptr = self.new_value(Op::FuncAddr { func: f });
        let env_ptr = if captures.len() == 0 {
            self.new_value(Op::Iconst { ty: MachineType::Pointer, imm: 0 })
        } else {
            let size = match (captures.len() as u32).checked_mul(env.ptr_size) {
                Some(x) => x,
                None => return None,
            };
            let env_slot = self.new_slot(Op::CreateSlot { size });
            if !self.store_captures(env, captures, captures.len(), env_slot) {
                return None;
            }
            self.new_value(Op::StackAddr { slot: env_slot })
        };
        let size = match 2u32.checked_mul(env.ptr_size) {
            Some(x) => x,
            None => return None,
        };
        let cs = self.new_slot(Op::CreateSlot { size });
        self.push(Op::StackStore { value: fn_ptr, slot: cs, offset: 0 });
        self.push(Op::StackStore { value: env_ptr, slot: cs, offset: env.ptr_size as i32 });
        let cp = self.new_value(Op::StackAddr { slot: cs });
        Some(Some(cp))
    }
}

impl Planner {
    fn formatted<'src>(&mut self, env: &Env, v: usize, part: &ast::Expr<'src>) -> (r: Option<usize>)
        requires
            old(self).wf(),
            !(*part is StructInstance),
        ensures
            final(self).wf(),
            final(self).loops@ == old(self).loops@,
            agrees_nat(formatted(env.view(), old(self).state(), v as nat, *part), r, final(self).state()),
    {
        match part.ty() {
            ast::TypeKind::Int => self.call_for_value(env, "rt_int_to_str", one_id(v)),
            ast::TypeKind::Float => self.call_for_value(env, "rt_double_to_str", one_id(v)),
            _ => Some(v),
        }
    }

    fn plan_expr<'src>(&mut self, env: &Env, e: &ast::Expr<'src>) -> (r: Option<Option<usize>>)
        requires
            old(self).wf(),
            expr_supported(*e, old(self).loops@.len() > 0),
        ensures
            final(self).wf(),
            r is Some ==> final(self).loops@ == old(self).loops@,
            agrees_val(plan_expr(env.view(), old(self).state(), *e), r, final(self).state()),
        decreases e, 0int,
    {
        match e {
            ast::Expr::IntLiteral(i) => {
                let v = self.new_value(Op::Iconst { ty: MachineType::I64, imm: *i });
                Some(Some(v))
            },
            ast::Expr::StringLiteral(t) => {
                let bytes = crate::codegen::string_data(*t);
                let v = self.new_value(Op::StringData { bytes, writable: false });
                Some(Some(v))
            },
            ast::Expr::StringInterpolation(parts) => match self.plan_parts(env, parts, parts.len()) {
                Some(v) => Some(Some(v)),
                None => None,
            },
            ast::Expr::Ident { ident, .. } => match find_latest(&self.variables, ident.inner) {
                Some(var) => {
                    let v = self.new_value(Op::UseVar { var });
                    Some(Some(v))
                },
                None => None,
            },
            ast::Expr::Binary { op, left, right, .. } => {
                let l = match self.plan_expr(env, left) {
                    Some(Some(l)) => l,
                    _ => return None,
                };
                let r = match self.plan_expr(env, right) {
                    Some(Some(r)) => r,
                    _ => return None,
                };
                if *op == ast::BinaryOp::Exp || *op == ast::BinaryOp::And {
                    return None;
                }
                let inst = crate::codegen::binary_inst(*op);
                let v = self.new_value(Op::Binary { inst, left: l, right: r });
                Some(Some(v))
            },
            ast::Expr::Call { call, ty } => self.plan_call(env, call, ty),
            ast::Expr::If { ty, cond, then, else_block, .. } => {
                let cv = match self.plan_expr(env, cond) {
                    Some(Some(c)) => c,
                    _ => return None,
                };
                let tb = self.new_block();
                let eb = self.new_block();
                let mb = self.new_block();
                if let ast::TypeKind::Ident(_) = ty {
                    return None;
                }
                let rt = crate::codegen::type_from_ast(ty);
                match rt {
                    Some(t) => self.push(Op::AppendBlockParam { block: mb, ty: t }),
                    None => {},
                }
                self.push(Op::Brif { cond: cv, then_block: tb, else_block: eb });
                self.push(Op::SwitchToBlock { block: tb });
                self.push(Op::SealBlock { block: tb });
                if !self.plan_branch(env, then, rt.is_some(), mb) {
                    return None;
                }
                self.push(Op::SwitchToBlock { block: eb });
                self.push(Op::SealBlock { block: eb });
                match else_block {
                    Some(b) => {
                        if !self.plan_branch(env, b, rt.is_some(), mb) {
                            return None;
                        }
                    },
                    None => self.push(Op::Jump { block: mb, args: no_ids() }),
                }
                self.push(Op::SwitchToBlock { block: mb });
                self.push(Op::SealBlock { block: mb });
                if rt.is_some() {
                    let phi = self.new_value(Op::BlockParam { block: mb, index: 0 });
                    Some(Some(phi))
                } else {
                    Some(None)
                }
            },
            ast::Expr::Closure { mangled_name, captures, .. } => self.plan_closure(
                env,
                mangled_name.as_str(),
                captures,
            ),
            _ => None,
        }
    }

    fn plan_call<'src>(&mut self, env: &Env, call: &ast::Call<'src>, ret_ty: &ast::TypeKind<'src>) -> (r:
        Option<Option<usize>>)
        requires
            old(self).wf(),
            exprs_supported(call.args@, call.args@.len() as int, old(self).loops@.len() > 0),
        ensures
            final(self).wf(),
            r is Some ==> final(self).loops@ == old(self).loops@,
            agrees_val(plan_call(env.view(), old(self).state(), *call, *ret_ty), r, final(self).state()),
        decreases call, 0int,
    {
        match find_latest(&self.variables, call.callee.as_str()) {
            Some(cv) => {
                let cp = self.new_value(Op::UseVar { var: cv });
                let fp = self.new_value(Op::Load { ty: MachineType::Pointer, base: cp, offset: 0 });
                let ep = self.new_value(
                    Op::Load { ty: MachineType::Pointer, base: cp, offset: env.ptr_size as i32 },
                );
                let vals = match self.plan_args(env, &call.args, call.args.len()) {
                    Some(v) => v,
                    None => return None,
                };
                let tys = match arg_types_of(&call.args, call.args.len()) {
                    Some(t) => t,
                    None => return None,
                };
                if let ast::TypeKind::Ident(_) = ret_ty {
                    return None;
                }
                let ret = crate::codegen::type_from_ast(ret_ty);
                let mut params: Vec<MachineType> = Vec::new();
                params.push(MachineType::Pointer);
                let mut tys = tys;
                params.append(&mut tys);
                let mut args: Vec<usize> = Vec::new();
                args.push(ep);
                let mut vals = vals;
                let ghost vals_view = ids(vals@);
                args.append(&mut vals);
                proof {
                    assert(ids(args@) =~= seq![ep as nat] + vals_view);
                }
                let op = Op::CallIndirect { params, ret, callee: fp, args };
                let r = if ret.is_some() {
                    Some(self.new_value(op))
                } else {
                    self.push(op);
                    None
                };
                self.reload();
                Some(r)
            },
            None => match find_callee(&env.callees, call.callee.as_str()) {
                None => None,
                Some(has_result) => {
                    let f = self.new_func(call.callee.as_str());
                    let vals = match self.plan_args(env, &call.args, call.args.len()) {
                        Some(v) => v,
                        None => return None,
                    };
                    let op = Op::Call { func: f, args: vals, has_result };
                    if has_result {
                        let v = self.new_value(op);
                        Some(Some(v))
                    } else {
                        self.push(op);
                        Some(None)
                    }
                },
            },
        }
    }

    fn plan_args<'src>(&mut self, env: &Env, es: &Vec<ast::Expr<'src>>, n: usize) -> (r: Option<Vec<usize>>)
        requires
            old(self).wf(),
            n <= es@.len(),
            exprs_supported(es@, n as int, old(self).loops@.len() > 0),
        ensures
            final(self).wf(),
            r is Some ==> final(self).loops@ == old(self).loops@,
            agrees_ids(plan_args(env.view(), old(self).state(), es@, n as int), r, final(self).state()),
        decreases es@, n as int,
    {
        if n == 0 {
            let v: Vec<usize> = Vec::new();
            assert(ids(v@) =~= Seq::<nat>::empty());
            return Some(v);
        }
        let mut vals = match self.plan_args(env, es, n - 1) {
            Some(v) => v,
            None => return None,
        };
        match self.plan_expr(env, &es[n - 1]) {
            Some(Some(v)) => {
                let ghost before = vals@;
                vals.push(v);
                assert(ids(vals@) =~= ids(before).push(v as nat));
                Some(vals)
            },
            _ => None,
        }
    }

    fn plan_parts<'src>(&mut self, env: &Env, es: &Vec<ast::Expr<'src>>, n: usize) -> (r: Option<usize>)
        requires
            old(self).wf(),
            n <= es@.len(),
            exprs_supported(es@, n as int, old(self).loops@.len() > 0),
        ensures
            final(self).wf(),
            r is Some ==> final(self).loops@ == old(self).loops@,
            agrees_nat(plan_parts(env.view(), old(self).state(), es@, n as int), r, final(self).state()),
        decreases es@, n as int,
    {
        if n == 0 {
            let mut bytes: Vec<u8> = Vec::new();
            bytes.push(0u8);
            assert(bytes@ =~= seq![0u8]);
            let v = self.new_value(Op::StringData { bytes, writable: true });
            return Some(v);
        }
        let acc = match self.plan_parts(env, es, n - 1) {
            Some(a) => a,
            None => return None,
        };
        let v = match self.plan_expr(env, &es[n - 1]) {
            Some(Some(v)) => v,
            _ => return None,
        };
        let t = match self.formatted(env, v, &es[n - 1]) {
            Some(t) => t,
            None => return None,
        };
        self.call_for_value(env, "rt_concat", two_ids(acc, t))
    }

    fn plan_branch<'src>(&mut self, env: &Env, b: &ast::Block<'src>, has_value: bool, mb: usize) -> (ok: bool)
        requires
            old(self).wf(),
            block_supported(*b, old(self).loops@.len() > 0),
        ensures
            final(self).wf(),
            ok ==> final(self).loops@ == old(self).loops@,
            agrees_state(plan_branch(env.view(), old(self).state(), *b, has_value, mb as nat), ok, final(self).state()),
        decreases b, 0int,
    {
        let n = b.statements.len();
        if n == 0 {
            return false;
        }
        match self.plan_stmts(env, &b.statements, n - 1) {
            Some(_) => {},
            None => return false,
        }
        if has_value {
            match &b.statements[n - 1] {
                ast::Statement::Expr(e) => match self.plan_expr(env, e) {
                    Some(Some(v)) => {
                        self.push(Op::Jump { block: mb, args: one_id(v) });
                        true
                    },
                    _ => false,
                },
                _ => false,
            }
        } else {
            match self.plan_stmt(env, &b.statements[n - 1]) {
                None => false,
                Some(terminates) => {
                    if !terminates {
                        self.push(Op::Jump { block: mb, args: no_ids() });
                    }
                    true
                },
            }
        }
    }

    fn plan_stmts<'src>(&mut self, env: &Env, ss: &Vec<ast::Statement<'src>>, n: usize) -> (r: Option<bool>)
        requires
            old(self).wf(),
            n <= ss@.len(),
            stmts_supported(ss@, n as int, old(self).loops@.len() > 0),
        ensures
            final(self).wf(),
            r is Some ==> final(self).loops@ == old(self).loops@,
            agrees_flag(plan_stmts(env.view(), old(self).state(), ss@, n as int), r, final(self).state()),
        decreases ss@, n as int,
    {
        if n == 0 {
            return Some(false);
        }
        match self.plan_stmts(env, ss, n - 1) {
            Some(_) => {},
            None => return None,
        }
        self.plan_stmt(env, &ss[n - 1])
    }

    fn plan_stmt<'src>(&mut self, env: &Env, st: &ast::Statement<'src>) -> (r: Option<bool>)
        requires
            old(self).wf(),
            stmt_supported(*st, old(self).loops@.len() > 0),
        ensures
            final(self).wf(),
            r is Some ==> final(self).loops@ == old(self).loops@,
            agrees_flag(plan_stmt(env.view(), old(self).state(), *st), r, final(self).state()),
        decreases st, 0int,
    {
        match st {
            ast::Statement::Let { name, expr, .. } => {
                let v = match self.plan_expr(env, expr) {
                    Some(Some(v)) => v,
                    _ => return None,
                };
                let var = self.new_var(Op::DeclareVarLike { value: v });
                self.push(Op::DefVar { var, value: v });
                self.add_variable(name.inner, var);
                Some(false)
            },
            ast::Statement::Assign { name, expr } => {
                let v = match self.plan_expr(env, expr) {
                    Some(Some(v)) => v,
                    _ => return None,
                };
                match find_latest(&self.capture_ptrs, name.inner) {
                    Some(pv) => {
                        let p = self.new_value(Op::UseVar { var: pv });
                        self.push(Op::Store { value: v, base: p });
                    },
                    None => {},
                }
                match find_latest(&self.variables, name.inner) {
                    Some(var) => {
                        self.push(Op::DefVar { var, value: v });
                        Some(false)
                    },
                    None => None,
                }
            },
            ast::Statement::Return { expr } => match expr {
                None => {
                    self.push(Op::Return { values: no_ids() });
                    Some(true)
                },
                Some(e) => match self.plan_expr(env, e) {
                    Some(Some(v)) => {
                        self.push(Op::Return { values: one_id(v) });
                        Some(true)
                    },
                    _ => None,
                },
            },
            ast::Statement::ForLoop { cond, block } => {
                let h = self.new_block();
                let b = self.new_block();
                let x = self.new_block();
                let ghost loops0 = self.loops@;
                self.loops.push((h, x));
                assert(loops_view(self.loops@) =~= loops_view(loops0).push((h as nat, x as nat)));
                self.push(Op::Jump { block: h, args: no_ids() });
                self.push(Op::SwitchToBlock { block: h });
                let cv = match cond {
                    Some(c) => match self.plan_expr(env, c) {
                        Some(Some(v)) => v,
                        _ => return None,
                    },
                    None => self.new_value(Op::Iconst { ty: MachineType::I64, imm: 1 }),
                };
                self.push(Op::Brif { cond: cv, then_block: b, else_block: x });
                self.push(Op::SwitchToBlock { block: b });
                self.push(Op::SealBlock { block: b });
                let last_terminates = match self.plan_stmts(env, &block.statements, block.statements.len()) {
                    Some(t) => t,
                    None => return None,
                };
                if !last_terminates {
                    self.push(Op::Jump { block: h, args: no_ids() });
                }
                self.push(Op::SwitchToBlock { block: x });
                self.push(Op::SealBlock { block: h });
                self.push(Op::SealBlock { block: x });
                let _ = self.loops.pop();
                assert(loops_view(self.loops@) =~= loops_view(loops0));
                assert(loops_view(loops0) =~= loops_view(loops0.push((h, x))).drop_last());
                Some(false)
            },
            ast::Statement::Expr(e) => match self.plan_expr(env, e) {
                Some(_) => Some(false),
                None => None,
            },
            ast::Statement::Break => {
                let n = self.loops.len();
                if n == 0 {
                    return None;
                }
                let exit = self.loops[n - 1].1;
                self.push(Op::Jump { block: exit, args: no_ids() });
                Some(true)
            },
            ast::Statement::Continue => {
                let n = self.loops.len();
                if n == 0 {
                    return None;
                }
                let header = self.loops[n - 1].0;
                self.push(Op::Jump { block: header, args: no_ids() });
                Some(true)
            },
            _ => None,
        }
    }
}

// ---------------------------------------------------------------------------
// Planning functions
// ---------------------------------------------------------------------------

/// The plan of one function.
pub struct FnPlan {
    pub name: String,
    pub params: Vec<MachineType>,
    pub ret: Option<MachineType>,
    pub ops: Vec<Op>,
}

impl View for FnPlan {
    type V = FnPlanView;

    open spec fn view(&self) -> FnPlanView {
        FnPlanView {
            name: self.name@,
            params: self.params@,
            ret: self.ret,
            ops: self.ops@.map_values(|o: Op| o@),
        }
    }
}

fn param_types_of<'src>(ps: &Vec<ast::Param<'src>>, n: usize) -> (r: Option<Vec<MachineType>>)
    requires
        n <= ps@.len(),
    ensures
        match param_types(ps@, n as int) {
            Some(t) => r is Some && r->0@ == t,
            None => r is None,
        },
    decreases n,
{
    if n == 0 {
        return Some(Vec::new());
    }
    let mut tys = match param_types_of(ps, n - 1) {
        Some(t) => t,
        None => return None,
    };
    if let ast::TypeKind::Ident(_) = ps[n - 1].ty {
        return None;
    }
    match crate::codegen::type_from_ast(&ps[n - 1].ty) {
        Some(t) => {
            tys.push(t);
            Some(tys)
        },
        None => None,
    }
}

fn present_types_of<'src>(ps: &Vec<ast::Param<'src>>, n: usize) -> (r: Option<Vec<MachineType>>)
    requires
        n <= ps@.len(),
    ensures
        match present_types(ps@, n as int) {
            Some(t) => r is Some && r->0@ == t,
            None => r is None,
        },
    decreases n,
{
    if n == 0 {
        return Some(Vec::new());
    }
    let mut tys = match present_types_of(ps, n - 1) {
        Some(t) => t,
        None => return None,
    };
    if let ast::TypeKind::Ident(_) = ps[n - 1].ty {
        return None;
    }
    match crate::codegen::type_from_ast(&ps[n - 1].ty) {
        Some(t) => tys.push(t),
        None => {},
    }
    Some(tys)
}

impl Planner {
    fn entry_block(&mut self) -> (b0: usize)
        requires
            old(self).wf(),
        ensures
            final(self).wf(),
            final(self).loops@ == old(self).loops@,
            entry_block(old(self).state()) == (b0 as nat, final(self).state()),
    {
        let b0 = self.new_block();
        self.push(Op::AppendFunctionParams { block: b0 });
        self.push(Op::SwitchToBlock { block: b0 });
        self.push(Op::SealBlock { block: b0 });
        b0
    }

    fn bind_params<'src>(&mut self, ps: &Vec<ast::Param<'src>>, n: usize, b0: usize) -> (ok: bool)
        requires
            old(self).wf(),
            n <= ps@.len(),
        ensures
            final(self).wf(),
            final(self).loops@ == old(self).loops@,
            agrees_state(bind_params(old(self).state(), ps@, n as int, b0 as nat), ok, final(self).state()),
        decreases n,
    {
        if n == 0 {
            return true;
        }
        if !self.bind_params(ps, n - 1, b0) {
            return false;
        }
        let val = self.new_value(Op::BlockParam { block: b0, index: n - 1 });
        if let ast::TypeKind::Ident(_) = ps[n - 1].ty {
            return false;
        }
        match crate::codegen::type_from_ast(&ps[n - 1].ty) {
            None => false,
            Some(ty) => {
                let var = match find_latest(&self.variables, ps[n - 1].name.inner) {
                    Some(v) => v,
                    None => {
                        let v = self.new_var(Op::DeclareVar { ty });
                        self.add_variable(ps[n - 1].name.inner, v);
                        v
                    },
                };
                self.push(Op::DefVar { var, value: val });
                true
            },
        }
    }

    fn bind_closure_params<'src>(&mut self, ps: &Vec<ast::Param<'src>>, n: usize, b0: usize, sig_len: usize) -> (ok:
        bool)
        requires
            old(self).wf(),
            n <= ps@.len(),
        ensures
            final(self).wf(),
            final(self).loops@ == old(self).loops@,
            agrees_state(
                bind_closure_params(old(self).state(), ps@, n as int, b0 as nat, sig_len as nat),
                ok,
                final(self).state(),
            ),
        decreases n,
    {
        if n == 0 {
            return true;
        }
        if !self.bind_closure_params(ps, n - 1, b0, sig_len) {
            return false;
        }
        if let ast::TypeKind::Ident(_) = ps[n - 1].ty {
            return false;
        }
        match crate::codegen::type_from_ast(&ps[n - 1].ty) {
            None => true,
            Some(ty) => {
                if n >= sig_len {
                    return false;
                }
                let val = self.new_value(Op::BlockParam { block: b0, index: n });
                let var = self.new_var(Op::DeclareVar { ty });
                self.push(Op::DefVar { var, value: val });
                self.add_variable(ps[n - 1].name.inner, var);
                true
            },
        }
    }

    fn load_captures<'src>(
        &mut self,
        env: &Env,
        caps: &Vec<(String, ast::TypeKind<'src>, bool)>,
        n: usize,
        env_ptr: usize,
    ) -> (ok: bool)
        requires
            old(self).wf(),
            n <= caps@.len(),
        ensures
            final(self).wf(),
            final(self).loops@ == old(self).loops@,
            agrees_state(
                load_captures(env.view(), old(self).state(), caps@, n as int, env_ptr as nat),
                ok,
                final(self).state(),
            ),
        decreases n,
    {
        if n == 0 {
            return true;
        }
        if !self.load_captures(env, caps, n - 1, env_ptr) {
            return false;
        }
        let entry = &caps[n - 1];
        if let ast::TypeKind::Ident(_) = entry.1 {
            return false;
        }
        let cl_ty = match crate::codegen::type_from_ast(&entry.1) {
            None => return true,
            Some(t) => t,
        };
        let offset = match ((n - 1) as i32).checked_mul(env.ptr_size as i32) {
            Some(o) => o,
            None => return false,
        };
        if entry.2 {
            let pv = self.new_value(Op::Load { ty: MachineType::Pointer, base: env_ptr, offset });
            let pvar = self.new_var(Op::DeclareVar { ty: MachineType::Pointer });
            self.push(Op::DefVar { var: pvar, value: pv });
            let ghost before = self.capture_ptrs@;
            self.capture_ptrs.push((entry.0.as_str().to_string(), pvar));
            assert(entries_view(self.capture_ptrs@) =~= entries_view(before).push(
                (entry.0@, pvar as nat),
            ));
            let val = self.new_value(Op::Load { ty: cl_ty, base: pv, offset: 0 });
            let var = self.new_var(Op::DeclareVar { ty: cl_ty });
            self.push(Op::DefVar { var, value: val });
            self.add_variable(entry.0.as_str(), var);
        } else {
            let val = self.new_value(Op::Load { ty: cl_ty, base: env_ptr, offset });
            let var = self.new_var(Op::DeclareVar { ty: cl_ty });
            self.push(Op::DefVar { var, value: val });
            self.add_variable(entry.0.as_str(), var);
        }
        true
    }

    fn plan_body<'src>(
        &mut self,
        env: &Env,
        ss: &Vec<ast::Statement<'src>>,
        ret: Option<MachineType>,
        is_closure: bool,
    ) -> (ok: bool)
        requires
            old(self).wf(),
            stmts_supported(ss@, ss@.len() as int, old(self).loops@.len() > 0),
            ss@.len() > 0 || ret is None || is_closure,
        ensures
            final(self).wf(),
            agrees_state(plan_body(env.view(), old(self).state(), ss@, ret, is_closure), ok, final(self).state()),
    {
        let n = ss.len();
        if n == 0 {
            if ret.is_none() || is_closure {
                self.push(Op::Return { values: no_ids() });
                return true;
            }
            return false;
        }
        match self.plan_stmts(env, ss, n - 1) {
            Some(_) => {},
            None => return false,
        }
        assert(stmt_supported(ss@[n - 1], self.loops@.len() > 0));
        match &ss[n - 1] {
            ast::Statement::Return { .. } => {
                return self.plan_stmt(env, &ss[n - 1]).is_some();
            },
            ast::Statement::Expr(e) => {
                if ret.is_some() {
                    return match self.plan_expr(env, e) {
                        Some(Some(v)) => {
                            self.push(Op::Return { values: one_id(v) });
                            true
                        },
                        _ => false,
                    };
                }
            },
            _ => {},
        }
        match self.plan_stmt(env, &ss[n - 1]) {
            Some(_) => {
                if ret.is_none() {
                    self.push(Op::Return { values: no_ids() });
                }
                true
            },
            None => false,
        }
    }

    fn plan_print(&mut self, env: &Env) -> (ok: bool)
        requires
            old(self).wf(),
        ensures
            final(self).wf(),
            agrees_state(plan_print(env.view(), old(self).state()), ok, final(self).state()),
    {
        let r = match find_callee(&env.callees, "rt_print_str") {
            None => return false,
            Some(r) => r,
        };
        let f = self.new_func("rt_print_str");
        let var = match find_latest(&self.variables, "message") {
            None => return false,
            Some(v) => v,
        };
        let v = self.new_value(Op::UseVar { var });
        let op = Op::Call { func: f, args: one_id(v), has_result: r };
        if r {
            let _ = self.new_value(op);
        } else {
            self.push(op);
        }
        self.push(Op::Return { values: no_ids() });
        true
    }

    fn finish(self, name: String, params: Vec<MachineType>, ret: Option<MachineType>) -> (p: FnPlan)
        ensures
            p@ == (FnPlanView { name: name@, params: params@, ret, ops: self.state().ops }),
    {
        FnPlan { name, params, ret, ops: self.ops }
    }
}

fn plan_function_of<'src>(env: &Env, f: &ast::Function<'src>) -> (r: Option<FnPlan>)
    requires
        function_supported(*f),
    ensures
        match plan_function(env.view(), *f) {
            Some(p) => r is Some && r->0@ == p,
            None => r is None,
        },
{
    let params = match param_types_of(&f.params, f.params.len()) {
        Some(p) => p,
        None => return None,
    };
    if let ast::TypeKind::Ident(_) = f.ret_ty {
        return None;
    }
    let ret = crate::codegen::type_from_ast(&f.ret_ty);
    let mut p = Planner::new();
    assert(loops_view(p.loops@).len() == p.loops@.len());
    let b0 = p.entry_block();
    if !p.bind_params(&f.params, f.params.len(), b0) {
        return None;
    }
    let ok = if crate::utils::str_eq(f.name.as_str(), "std.io.print") {
        p.plan_print(env)
    } else {
        p.plan_body(env, &f.body.statements, ret, false)
    };
    if !ok {
        return None;
    }
    let name = f.name.as_str().to_string();
    Some(p.finish(name, params, ret))
}

fn plan_trampoline_of<'src>(env: &Env, c: &ast::Expr<'src>) -> (r: Option<FnPlan>)
    requires
        closure_supported(*c),
    ensures
        match plan_trampoline(env.view(), *c) {
            Some(p) => r is Some && r->0@ == p,
            None => r is None,
        },
{
    match c {
        ast::Expr::Closure { mangled_name, params, ret_ty, body, captures } => {
            let tys = match present_types_of(params, params.len()) {
                Some(t) => t,
                None => return None,
            };
            if let ast::TypeKind::Ident(_) = ret_ty {
                return None;
            }
            let mut sig: Vec<MachineType> = Vec::new();
            sig.push(MachineType::Pointer);
            let mut tys = tys;
            let ghost tys_view = tys@;
            sig.append(&mut tys);
            assert(sig@ =~= seq![MachineType::Pointer] + tys_view);
            let ret = crate::codegen::type_from_ast(ret_ty);
            let mut p = Planner::new();
            assert(loops_view(p.loops@).len() == p.loops@.len());
            let b0 = p.entry_block();
            let env_ptr = p.new_value(Op::BlockParam { block: b0, index: 0 });
            if !p.bind_closure_params(params, params.len(), b0, sig.len()) {
                return None;
            }
            if !p.load_captures(env, captures, captures.len(), env_ptr) {
                return None;
            }
            if !p.plan_body(env, &body.statements, ret, true) {
                return None;
            }
            let name = crate::utils::concat(mangled_name.as_str(), "__trampoline");
            Some(p.finish(name, sig, ret))
        },
        _ => None,
    }
}

// ---------------------------------------------------------------------------
// Planning programs
// ---------------------------------------------------------------------------

/// A function declared to the code generator.
pub struct Decl {
    pub name: String,
    pub linkage: Linkage,
    pub params: Vec<MachineType>,
    pub ret: Option<MachineType>,
}

impl View for Decl {
    type V = DeclView;

    open spec fn view(&self) -> DeclView {
        DeclView { name: self.name@, linkage: self.linkage, params: self.params@, ret: self.ret }
    }
}

/// The plan of a program: what to declare, then what to compile.
pub struct ProgramPlan {
    pub declarations: Vec<Decl>,
    pub bodies: Vec<FnPlan>,
}

/// Declarations by content.
pub open spec fn decls_view(v: Seq<Decl>) -> Seq<DeclView> {
    v.map_values(|d: Decl| d@)
}

/// Plans by content.
pub open spec fn plans_view(v: Seq<FnPlan>) -> Seq<FnPlanView> {
    v.map_values(|p: FnPlan| p@)
}

impl View for ProgramPlan {
    type V = ProgramPlanView;

    open spec fn view(&self) -> ProgramPlanView {
        ProgramPlanView { declarations: decls_view(self.declarations@), bodies: plans_view(self.bodies@) }
    }
}

/// Functions by content.
pub open spec fn fn_derefs<'a, 'src>(v: Seq<&'a ast::Function<'src>>) -> Seq<ast::Function<'src>> {
    v.map_values(|f: &'a ast::Function<'src>| *f)
}

fn pointers(n: usize) -> (v: Vec<MachineType>)
    ensures
        v@ == Seq::new(n as nat, |i: int| MachineType::Pointer),
{
    let mut v: Vec<MachineType> = Vec::new();
    let mut i: usize = 0;
    while i < n
        invariant
            i <= n,
            v@ == Seq::new(i as nat, |j: int| MachineType::Pointer),
        decreases n - i,
    {
        v.push(MachineType::Pointer);
        i = i + 1;
        assert(v@ =~= Seq::new(i as nat, |j: int| MachineType::Pointer));
    }
    v
}

fn runtime_declarations() -> (v: Vec<Decl>)
    ensures
        decls_view(v@) == runtime_decls(),
{
    let mut v: Vec<Decl> = Vec::new();
    let p1 = pointers(1);
    let p2 = pointers(2);
    let p3 = pointers(1);
    assert(p1@ =~= seq![MachineType::Pointer]);
    assert(p2@ =~= seq![MachineType::Pointer, MachineType::Pointer]);
    assert(p3@ =~= seq![MachineType::Pointer]);
    v.push(Decl { name: "rt_print_str".to_string(), linkage: Linkage::Import, params: p1, ret: None });
    v.push(
        Decl {
            name: "rt_concat".to_string(),
            linkage: Linkage::Import,
            params: p2,
            ret: Some(MachineType::Pointer),
        },
    );
    v.push(
        Decl {
            name: "rt_int_to_str".to_string(),
            linkage: Linkage::Import,
            params: p3,
            ret: Some(MachineType::Pointer),
        },
    );
    assert(decls_view(v@) =~= runtime_decls());
    v
}

fn functions_in<'a, 'src>(program: &'a ast::Program<'src>) -> (fs: Vec<&'a ast::Function<'src>>)
    ensures
        fn_derefs(fs@) == functions_of(program.declarations@, program.declarations@.len() as int),
{
    let ghost ds = program.declarations@;
    let mut fs: Vec<&'a ast::Function<'src>> = Vec::new();
    let mut i: usize = 0;
    assert(fn_derefs(fs@) =~= Seq::<ast::Function<'src>>::empty());
    while i < program.declarations.len()
        invariant
            i <= ds.len(),
            ds == program.declarations@,
            fn_derefs(fs@) == functions_of(ds, i as int),
        decreases ds.len() - i,
    {
        let ghost before = fs@;
        if let ast::Declaration::Function(f) = &program.declarations[i] {
            fs.push(f);
            assert(fn_derefs(fs@) =~= fn_derefs(before).push(*f));
        }
        i = i + 1;
    }
    fs
}

fn function_decl_of<'src>(f: &ast::Function<'src>) -> (r: Option<Decl>)
    ensures
        match function_decl(*f) {
            Some(d) => r is Some && r->0@ == d,
            None => r is None,
        },
{
    let params = match param_types_of(&f.params, f.params.len()) {
        Some(p) => p,
        None => return None,
    };
    if let ast::TypeKind::Ident(_) = f.ret_ty {
        return None;
    }
    let linkage = crate::codegen::function_linkage(f);
    Some(
        Decl {
            name: f.name.as_str().to_string(),
            linkage,
            params,
            ret: crate::codegen::type_from_ast(&f.ret_ty),
        },
    )
}

fn trampoline_decl_of<'src>(c: &ast::Expr<'src>) -> (r: Option<Decl>)
    ensures
        match trampoline_decl(*c) {
            Some(d) => r is Some && r->0@ == d,
            None => r is None,
        },
{
    match c {
        ast::Expr::Closure { mangled_name, params, ret_ty, .. } => {
            let tys = match present_types_of(params, params.len()) {
                Some(t) => t,
                None => return None,
            };
            if let ast::TypeKind::Ident(_) = ret_ty {
                return None;
            }
            let mut sig: Vec<MachineType> = Vec::new();
            sig.push(MachineType::Pointer);
            let mut tys = tys;
            let ghost tys_view = tys@;
            sig.append(&mut tys);
            assert(sig@ =~= seq![MachineType::Pointer] + tys_view);
            Some(
                Decl {
                    name: crate::utils::concat(mangled_name.as_str(), "__trampoline"),
                    linkage: Linkage::Local,
                    params: sig,
                    ret: crate::codegen::type_from_ast(ret_ty),
                },
            )
        },
        _ => None,
    }
}

fn function_decls_of<'a, 'src>(fs: &Vec<&'a ast::Function<'src>>, n: usize) -> (r: Option<Vec<Decl>>)
    requires
        n <= fs@.len(),
    ensures
        match function_decls(fn_derefs(fs@), n as int) {
            Some(d) => r is Some && decls_view(r->0@) == d,
            None => r is None,
        },
    decreases n,
{
    if n == 0 {
        let v: Vec<Decl> = Vec::new();
        assert(decls_view(v@) =~= Seq::<DeclView>::empty());
        return Some(v);
    }
    let mut ds = match function_decls_of(fs, n - 1) {
        Some(d) => d,
        None => return None,
    };
    assert(fn_derefs(fs@)[n - 1] == *fs@[n - 1]);
    match function_decl_of(fs[n - 1]) {
        Some(d) => {
            let ghost before = ds@;
            ds.push(d);
            assert(decls_view(ds@) =~= decls_view(before).push(d@));
            Some(ds)
        },
        None => None,
    }
}

fn trampoline_decls_of<'a, 'src>(cs: &Vec<&'a ast::Expr<'src>>, n: usize) -> (r: Option<Vec<Decl>>)
    requires
        n <= cs@.len(),
    ensures
        match trampoline_decls(crate::codegen::derefs(cs@), n as int) {
            Some(d) => r is Some && decls_view(r->0@) == d,
            None => r is None,
        },
    decreases n,
{
    if n == 0 {
        let v: Vec<Decl> = Vec::new();
        assert(decls_view(v@) =~= Seq::<DeclView>::empty());
        return Some(v);
    }
    let mut ds = match trampoline_decls_of(cs, n - 1) {
        Some(d) => d,
        None => return None,
    };
    assert(crate::codegen::derefs(cs@)[n - 1] == *cs@[n - 1]);
    match trampoline_decl_of(cs[n - 1]) {
        Some(d) => {
            let ghost before = ds@;
            ds.push(d);
            assert(decls_view(ds@) =~= decls_view(before).push(d@));
            Some(ds)
        },
        None => None,
    }
}

fn plan_trampolines_of<'a, 'src>(env: &Env, cs: &Vec<&'a ast::Expr<'src>>, n: usize) -> (r: Option<Vec<FnPlan>>)
    requires
        n <= cs@.len(),
        forall|i: int| 0 <= i < n ==> closure_supported(#[trigger] crate::codegen::derefs(cs@)[i]),
    ensures
        match plan_trampolines(env.view(), crate::codegen::derefs(cs@), n as int) {
            Some(p) => r is Some && plans_view(r->0@) == p,
            None => r is None,
        },
    decreases n,
{
    if n == 0 {
        let v: Vec<FnPlan> = Vec::new();
        assert(plans_view(v@) =~= Seq::<FnPlanView>::empty());
        return Some(v);
    }
    let mut ps = match plan_trampolines_of(env, cs, n - 1) {
        Some(p) => p,
        None => return None,
    };
    assert(crate::codegen::derefs(cs@)[n - 1] == *cs@[n - 1]);
    match plan_trampoline_of(env, cs[n - 1]) {
        Some(p) => {
            let ghost before = ps@;
            ps.push(p);
            assert(plans_view(ps@) =~= plans_view(before).push(p@));
            Some(ps)
        },
        None => None,
    }
}

fn plan_functions_of<'a, 'src>(env: &Env, fs: &Vec<&'a ast::Function<'src>>, n: usize) -> (r: Option<Vec<FnPlan>>)
    requires
        n <= fs@.len(),
        forall|i: int| 0 <= i < n ==> function_supported(#[trigger] fn_derefs(fs@)[i]),
    ensures
        match plan_functions(env.view(), fn_derefs(fs@), n as int) {
            Some(p) => r is Some && plans_view(r->0@) == p,
            None => r is None,
        },
    decreases n,
{
    if n == 0 {
        let v: Vec<FnPlan> = Vec::new();
        assert(plans_view(v@) =~= Seq::<FnPlanView>::empty());
        return Some(v);
    }
    let mut ps = match plan_functions_of(env, fs, n - 1) {
        Some(p) => p,
        None => return None,
    };
    assert(fn_derefs(fs@)[n - 1] == *fs@[n - 1]);
    match plan_function_of(env, fs[n - 1]) {
        Some(p) => {
            let ghost before = ps@;
            ps.push(p);
            assert(plans_view(ps@) =~= plans_view(before).push(p@));
            Some(ps)
        },
        None => None,
    }
}

fn callees_from(decls: &Vec<Decl>) -> (v: Vec<(String, bool)>)
    ensures
        callees_view(v@) == callees_of(decls_view(decls@)),
{
    let mut v: Vec<(String, bool)> = Vec::new();
    let mut i: usize = 0;
    while i < decls.len()
        invariant
            i <= decls@.len(),
            callees_view(v@) == callees_of(decls_view(decls@)).subrange(0, i as int),
        decreases decls@.len() - i,
    {
        let ghost before = v@;
        v.push((decls[i].name.as_str().to_string(), decls[i].ret.is_some()));
        assert(callees_view(v@) =~= callees_of(decls_view(decls@)).subrange(0, i + 1)) by {
            assert(callees_view(v@) =~= callees_view(before).push((decls@[i as int].name@, decls@[i as int].ret is Some)));
        }
        i = i + 1;
    }
    assert(callees_of(decls_view(decls@)).subrange(0, decls@.len() as int) =~= callees_of(decls_view(decls@)));
    v
}

// ---------------------------------------------------------------------------
// Checking for what the code generator refuses outright
// ---------------------------------------------------------------------------

fn expr_is_supported<'src>(e: &ast::Expr<'src>, in_loop: bool) -> (b: bool)
    ensures
        b == expr_supported(*e, in_loop),
    decreases e, 0int,
{
    match e {
        ast::Expr::StringInterpolation(parts) => exprs_are_supported(parts, parts.len(), in_loop),
        ast::Expr::Binary { op, left, right, .. } => {
            if *op == ast::BinaryOp::Exp || *op == ast::BinaryOp::And {
                return false;
            }
            expr_is_supported(left, in_loop) && expr_is_supported(right, in_loop)
        },
        ast::Expr::Call { call, .. } => exprs_are_supported(&call.args, call.args.len(), in_loop),
        ast::Expr::If { cond, then, else_block, .. } => {
            if !expr_is_supported(cond, in_loop) || !block_is_supported(then, in_loop) {
                return false;
            }
            match else_block {
                Some(b) => block_is_supported(b, in_loop),
                None => true,
            }
        },
        _ => true,
    }
}

fn exprs_are_supported<'src>(es: &Vec<ast::Expr<'src>>, n: usize, in_loop: bool) -> (b: bool)
    requires
        n <= es@.len(),
    ensures
        b == exprs_supported(es@, n as int, in_loop),
    decreases es@, n as int,
{
    if n == 0 {
        return true;
    }
    exprs_are_supported(es, n - 1, in_loop) && expr_is_supported(&es[n - 1], in_loop)
}

fn block_is_supported<'src>(b: &ast::Block<'src>, in_loop: bool) -> (r: bool)
    ensures
        r == block_supported(*b, in_loop),
    decreases b, 0int,
{
    stmts_are_supported(&b.statements, b.statements.len(), in_loop)
}

fn stmts_are_supported<'src>(ss: &Vec<ast::Statement<'src>>, n: usize, in_loop: bool) -> (b: bool)
    requires
        n <= ss@.len(),
    ensures
        b == stmts_supported(ss@, n as int, in_loop),
    decreases ss@, n as int,
{
    if n == 0 {
        return true;
    }
    stmts_are_supported(ss, n - 1, in_loop) && stmt_is_supported(&ss[n - 1], in_loop)
}

fn stmt_is_supported<'src>(st: &ast::Statement<'src>, in_loop: bool) -> (b: bool)
    ensures
        b == stmt_supported(*st, in_loop),
    decreases st, 0int,
{
    match st {
        ast::Statement::Let { expr, .. } => expr_is_supported(expr, in_loop),
        ast::Statement::Assign { expr, .. } => expr_is_supported(expr, in_loop),
        ast::Statement::Return { expr } => match expr {
            Some(e) => expr_is_supported(e, in_loop),
            None => true,
        },
        ast::Statement::Expr(e) => expr_is_supported(e, in_loop),
        ast::Statement::ForLoop { cond, block } => {
            let cond_ok = match cond {
                Some(c) => expr_is_supported(c, true),
                None => true,
            };
            cond_ok && block_is_supported(block, true)
        },
        ast::Statement::Break => in_loop,
        ast::Statement::Continue => in_loop,
        _ => true,
    }
}

fn function_is_supported<'src>(f: &ast::Function<'src>) -> (b: bool)
    ensures
        b == function_supported(*f),
{
    if crate::utils::str_eq(f.name.as_str(), "std.io.print") {
        return true;
    }
    let no_value = match &f.ret_ty {
        ast::TypeKind::Ident(_) => true,
        _ => crate::codegen::type_from_ast(&f.ret_ty).is_none(),
    };
    block_is_supported(&f.body, false) && (f.body.statements.len() > 0 || no_value)
}

fn closure_is_supported<'src>(c: &ast::Expr<'src>) -> (b: bool)
    ensures
        b == closure_supported(*c),
{
    match c {
        ast::Expr::Closure { body, .. } => block_is_supported(body, false),
        _ => true,
    }
}

/// Whether the program stays clear of what the code generator refuses
/// outright (see `program_supported`).
pub fn program_is_supported<'src>(program: &ast::Program<'src>) -> (b: bool)
    ensures
        b == program_supported(*program),
{
    let fs = functions_in(program);
    let ghost fsv = fn_derefs(fs@);
    let mut i: usize = 0;
    while i < fs.len()
        invariant
            i <= fs@.len(),
            fsv == fn_derefs(fs@),
            fsv == functions_of(program.declarations@, program.declarations@.len() as int),
            forall|j: int| 0 <= j < i ==> function_supported(#[trigger] fsv[j]),
        decreases fs@.len() - i,
    {
        assert(fsv[i as int] == *fs@[i as int]);
        if !function_is_supported(fs[i]) {
            return false;
        }
        i = i + 1;
    }
    let cs = crate::codegen::collect_closures_in_program(program);
    let ghost csv = crate::codegen::derefs(cs@);
    let mut k: usize = 0;
    while k < cs.len()
        invariant
            k <= cs@.len(),
            csv == crate::codegen::derefs(cs@),
            csv == closures_in_decls(program.declarations@, program.declarations@.len() as int),
            fsv == functions_of(program.declarations@, program.declarations@.len() as int),
            forall|j: int| 0 <= j < fsv.len() ==> function_supported(#[trigger] fsv[j]),
            forall|j: int| 0 <= j < k ==> closure_supported(#[trigger] csv[j]),
        decreases cs@.len() - k,
    {
        assert(csv[k as int] == *cs@[k as int]);
        if !closure_is_supported(cs[k]) {
            return false;
        }
        k = k + 1;
    }
    true
}

/// The plan of a program for a target whose pointers take `ptr_size` bytes,
/// or `None` where the code generator stops: on a program that does not stay
/// clear of what it refuses outright (`program_supported`: a `break` or
/// `continue` outside a loop, the `And` or `Exp` operator, a function other
/// than `void` with an empty body), and where `plan_program_spec` has no plan,
/// such as on a program without a `main` function or with a float literal.
pub fn checked_plan_program<'src>(program: &ast::Program<'src>, ptr_size: u32) -> (r: Option<ProgramPlan>)
    ensures
        !program_supported(*program) ==> r is None,
        program_supported(*program) ==> match plan_program_spec(*program, ptr_size) {
            Some(p) => r is Some && r->0@ == p,
            None => r is None,
        },
{
    if !program_is_supported(program) {
        return None;
    }
    let fs = functions_in(program);
    let ghost fsv = fn_derefs(fs@);
    let mut has_main = false;
    let mut i: usize = 0;
    while i < fs.len()
        invariant
            i <= fs@.len(),
            fsv == fn_derefs(fs@),
            has_main == (exists|j: int| 0 <= j < i && #[trigger] fsv[j].name@ == "main"@),
        decreases fs@.len() - i,
    {
        assert(fsv[i as int] == *fs@[i as int]);
        if crate::utils::str_eq(fs[i].name.as_str(), "main") {
            has_main = true;
        }
        i = i + 1;
    }
    if !has_main {
        return None;
    }
    let cs = crate::codegen::collect_closures_in_program(program);
    let fd = match function_decls_of(&fs, fs.len()) {
        Some(d) => d,
        None => return None,
    };
    let td = match trampoline_decls_of(&cs, cs.len()) {
        Some(d) => d,
        None => return None,
    };
    let mut declarations = runtime_declarations();
    let mut fd = fd;
    let mut td = td;
    let ghost (rv, fv, tv) = (decls_view(declarations@), decls_view(fd@), decls_view(td@));
    declarations.append(&mut fd);
    declarations.append(&mut td);
    assert(decls_view(declarations@) =~= rv + fv + tv);
    let callees = callees_from(&declarations);
    let env = Env { ptr_size, callees };
    assert(forall|j: int| 0 <= j < cs@.len() ==> closure_supported(#[trigger] crate::codegen::derefs(cs@)[j]));
    assert(forall|j: int| 0 <= j < fs@.len() ==> function_supported(#[trigger] fn_derefs(fs@)[j]));
    let tb = match plan_trampolines_of(&env, &cs, cs.len()) {
        Some(p) => p,
        None => return None,
    };
    let fb = match plan_functions_of(&env, &fs, fs.len()) {
        Some(p) => p,
        None => return None,
    };
    let mut bodies = tb;
    let mut fb = fb;
    let ghost (tbv, fbv) = (plans_view(bodies@), plans_view(fb@));
    bodies.append(&mut fb);
    assert(plans_view(bodies@) =~= tbv + fbv);
    Some(ProgramPlan { declarations, bodies })
}

/// The plan of a program for a target whose pointers take `ptr_size` bytes,
/// for a program that the code generator handles (see `checked_plan_program`
/// for the programs it stops on).
pub fn plan_program<'src>(program: &ast::Program<'src>, ptr_size: u32) -> (r: ProgramPlan)
    requires
        program_supported(*program),
        plan_program_spec(*program, ptr_size) is Some,
    ensures
        r@ == plan_program_spec(*program, ptr_size)->0,
{
    match checked_plan_program(program, ptr_size) {
        Some(p) => p,
        None => {
            proof {
                assert(false);
            }
            ProgramPlan { declarations: Vec::new(), bodies: Vec::new() }
        },
    }
}

} // verus!
