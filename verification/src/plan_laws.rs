//! What every plan keeps: each call uses only values, blocks, variables,
//! stack slots and imported functions that earlier calls of the same
//! function created.

use crate::bir_ast as ast;
use crate::codegen::{computes, law_binary_inst_computes_operator};
use crate::plan::{
    block_op,
    call_for_value,
    callee_returns,
    emit,
    env_offset,
    formatted,
    func_op,
    lookup,
    bind_closure_params,
    bind_params,
    empty_state,
    entry_block,
    load_captures,
    param_types,
    plan_args,
    plan_body,
    plan_branch,
    plan_call,
    plan_closure,
    plan_expr,
    plan_function,
    plan_functions,
    plan_parts,
    plan_print,
    plan_program_spec,
    plan_stmt,
    plan_stmts,
    plan_trampoline,
    plan_trampolines,
    present_types,
    trampoline_decl,
    function_decl,
    reload,
    slot_of,
    slot_op,
    store_captures,
    value_op,
    var_op,
    with_variable,
    OpView,
    PlanEnv,
    PlanState,
};
use vstd::prelude::*;

verus! {

// ---------------------------------------------------------------------------
// Well-formed plans
// ---------------------------------------------------------------------------

/// How many values, blocks, variables, stack slots and imported functions
/// some calls created.
pub ghost struct Counts {
    pub values: nat,
    pub blocks: nat,
    pub vars: nat,
    pub slots: nat,
    pub funcs: nat,
}

/// The counts after one more call.
pub open spec fn creates(op: OpView, c: Counts) -> Counts {
    match op {
        OpView::CreateBlock => Counts { blocks: c.blocks + 1, ..c },
        OpView::BlockParam { .. } | OpView::UseVar { .. } | OpView::Iconst { .. }
        | OpView::Binary { .. } | OpView::StringData { .. } | OpView::FuncAddr { .. }
        | OpView::StackLoadLike { .. } | OpView::StackAddr { .. } | OpView::Load { .. } => Counts {
            values: c.values + 1,
            ..c
        },
        OpView::Call { has_result, .. } => if has_result {
            Counts { values: c.values + 1, ..c }
        } else {
            c
        },
        OpView::CallIndirect { ret, .. } => if ret is Some {
            Counts { values: c.values + 1, ..c }
        } else {
            c
        },
        OpView::DeclareVar { .. } | OpView::DeclareVarLike { .. } => Counts { vars: c.vars + 1, ..c },
        OpView::CreateSlot { .. } | OpView::CreateSlotLike { .. } => Counts { slots: c.slots + 1, ..c },
        OpView::DeclareFunc { .. } => Counts { funcs: c.funcs + 1, ..c },
        _ => c,
    }
}

/// What the calls `ops` create, in all.
pub open spec fn counts(ops: Seq<OpView>) -> Counts
    decreases ops.len(),
{
    if ops.len() == 0 {
        Counts { values: 0, blocks: 0, vars: 0, slots: 0, funcs: 0 }
    } else {
        creates(ops.last(), counts(ops.drop_last()))
    }
}

/// Every number in the list names one of the first `n` values.
pub open spec fn all_below(v: Seq<nat>, n: nat) -> bool {
    forall|i: int| 0 <= i < v.len() ==> #[trigger] v[i] < n
}

/// A call uses only what the counts `c` say exists.
pub open spec fn uses_ok(op: OpView, c: Counts) -> bool {
    match op {
        OpView::AppendBlockParam { block, .. } => block < c.blocks,
        OpView::AppendFunctionParams { block } => block < c.blocks,
        OpView::SwitchToBlock { block } => block < c.blocks,
        OpView::SealBlock { block } => block < c.blocks,
        OpView::BlockParam { block, .. } => block < c.blocks,
        OpView::DeclareVarLike { value } => value < c.values,
        OpView::DefVar { var, value } => var < c.vars && value < c.values,
        OpView::UseVar { var } => var < c.vars,
        OpView::Binary { left, right, .. } => left < c.values && right < c.values,
        OpView::Brif { cond, then_block, else_block } => cond < c.values && then_block < c.blocks
            && else_block < c.blocks,
        OpView::Jump { block, args } => block < c.blocks && all_below(args, c.values),
        OpView::Return { values } => all_below(values, c.values),
        OpView::Call { func, args, .. } => func < c.funcs && all_below(args, c.values),
        OpView::CallIndirect { callee, args, .. } => callee < c.values && all_below(args, c.values),
        OpView::FuncAddr { func } => func < c.funcs,
        OpView::CreateSlotLike { value } => value < c.values,
        OpView::StackStore { value, slot, .. } => value < c.values && slot < c.slots,
        OpView::StackLoadLike { slot, like } => slot < c.slots && like < c.values,
        OpView::StackAddr { slot } => slot < c.slots,
        OpView::Load { base, .. } => base < c.values,
        OpView::Store { value, base } => value < c.values && base < c.values,
        _ => true,
    }
}

/// Every call uses only values, blocks, variables, stack slots and imported
/// functions that earlier calls created.
pub open spec fn well_formed(ops: Seq<OpView>) -> bool {
    forall|i: int| 0 <= i < ops.len() ==> uses_ok(#[trigger] ops[i], counts(ops.take(i)))
}

/// The counters of a planning state.
pub open spec fn counters(s: PlanState) -> Counts {
    Counts { values: s.values, blocks: s.blocks, vars: s.vars, slots: s.slots, funcs: s.funcs }
}

/// A planning state is sound: its calls are well formed, its counters are
/// what they created, and everything it keeps by name or on its loop stack
/// was created.
#[verifier::opaque]
pub open spec fn sound(s: PlanState) -> bool {
    &&& well_formed(s.ops)
    &&& counts(s.ops) == counters(s)
    &&& forall|i: int| 0 <= i < s.variables.len() ==> #[trigger] s.variables[i].1 < s.vars
    &&& forall|i: int| 0 <= i < s.loops.len() ==> #[trigger] s.loops[i].0 < s.blocks && s.loops[i].1 < s.blocks
    &&& forall|i: int|
        0 <= i < s.capture_slots.len() ==> #[trigger] s.capture_slots[i].1 < s.slots
            && s.capture_slots[i].2 < s.values
    &&& forall|i: int| 0 <= i < s.capture_ptrs.len() ==> #[trigger] s.capture_ptrs[i].1 < s.vars
}

/// From `s` to `t` nothing was taken away: every counter only grew.
pub open spec fn grew(s: PlanState, t: PlanState) -> bool {
    s.values <= t.values && s.blocks <= t.blocks && s.vars <= t.vars && s.slots <= t.slots && s.funcs
        <= t.funcs
}

proof fn lemma_push_well_formed(ops: Seq<OpView>, op: OpView)
    requires
        well_formed(ops),
        uses_ok(op, counts(ops)),
    ensures
        well_formed(ops.push(op)),
        counts(ops.push(op)) == creates(op, counts(ops)),
{
    let p = ops.push(op);
    assert(p.drop_last() =~= ops);
    assert forall|i: int| 0 <= i < p.len() implies uses_ok(#[trigger] p[i], counts(p.take(i))) by {
        if i < ops.len() {
            assert(p.take(i) =~= ops.take(i));
            assert(p[i] == ops[i]);
        } else {
            assert(p.take(i) =~= ops);
        }
    }
}

/// One more call that creates what `creates` says keeps a state sound.
proof fn lemma_sound_step(s: PlanState, op: OpView, t: PlanState)
    requires
        sound(s),
        uses_ok(op, counters(s)),
        t.ops == s.ops.push(op),
        counters(t) == creates(op, counters(s)),
        t.variables == s.variables,
        t.loops == s.loops,
        t.capture_slots == s.capture_slots,
        t.capture_ptrs == s.capture_ptrs,
    ensures
        sound(t),
        grew(s, t),
{
    reveal(sound);
    lemma_push_well_formed(s.ops, op);
}

/// What a sound state keeps by name or on its loop stack was created.
pub proof fn lemma_sound_kept(s: PlanState)
    requires
        sound(s),
    ensures
        forall|i: int| 0 <= i < s.variables.len() ==> #[trigger] s.variables[i].1 < s.vars,
        forall|i: int| 0 <= i < s.loops.len() ==> #[trigger] s.loops[i].0 < s.blocks && s.loops[i].1 < s.blocks,
        forall|i: int|
            0 <= i < s.capture_slots.len() ==> #[trigger] s.capture_slots[i].1 < s.slots
                && s.capture_slots[i].2 < s.values,
        forall|i: int| 0 <= i < s.capture_ptrs.len() ==> #[trigger] s.capture_ptrs[i].1 < s.vars,
{
    reveal(sound);
}

/// The same state with other names, slots and loops, all of them created.
pub proof fn lemma_sound_rekept(s: PlanState, t: PlanState)
    requires
        sound(s),
        t.ops == s.ops,
        counters(t) == counters(s),
        forall|i: int| 0 <= i < t.variables.len() ==> #[trigger] t.variables[i].1 < t.vars,
        forall|i: int| 0 <= i < t.loops.len() ==> #[trigger] t.loops[i].0 < t.blocks && t.loops[i].1 < t.blocks,
        forall|i: int|
            0 <= i < t.capture_slots.len() ==> #[trigger] t.capture_slots[i].1 < t.slots
                && t.capture_slots[i].2 < t.values,
        forall|i: int| 0 <= i < t.capture_ptrs.len() ==> #[trigger] t.capture_ptrs[i].1 < t.vars,
    ensures
        sound(t),
        grew(s, t),
{
    reveal(sound);
}

/// A call that creates nothing.
pub broadcast proof fn lemma_emit_sound(s: PlanState, op: OpView)
    requires
        sound(s),
        uses_ok(op, counters(s)),
        creates(op, counters(s)) == counters(s),
    ensures
        #[trigger] sound(emit(s, op)),
        grew(s, emit(s, op)),
{
    lemma_sound_step(s, op, emit(s, op));
}

/// A call that creates a value.
pub broadcast proof fn lemma_value_sound(s: PlanState, op: OpView)
    requires
        sound(s),
        uses_ok(op, counters(s)),
        creates(op, counters(s)) == (Counts { values: s.values + 1, ..counters(s) }),
    ensures
        #[trigger] sound(value_op(s, op).1),
        grew(s, value_op(s, op).1),
        value_op(s, op).0 < value_op(s, op).1.values,
{
    lemma_sound_step(s, op, value_op(s, op).1);
}

/// A new block.
pub broadcast proof fn lemma_block_sound(s: PlanState)
    requires
        sound(s),
    ensures
        #[trigger] sound(block_op(s).1),
        grew(s, block_op(s).1),
        block_op(s).0 < block_op(s).1.blocks,
{
    lemma_sound_step(s, OpView::CreateBlock, block_op(s).1);
}

/// A call that creates a variable.
pub broadcast proof fn lemma_var_sound(s: PlanState, op: OpView)
    requires
        sound(s),
        uses_ok(op, counters(s)),
        creates(op, counters(s)) == (Counts { vars: s.vars + 1, ..counters(s) }),
    ensures
        #[trigger] sound(var_op(s, op).1),
        grew(s, var_op(s, op).1),
        var_op(s, op).0 < var_op(s, op).1.vars,
{
    lemma_sound_step(s, op, var_op(s, op).1);
}

/// A call that creates a stack slot.
pub broadcast proof fn lemma_slot_sound(s: PlanState, op: OpView)
    requires
        sound(s),
        uses_ok(op, counters(s)),
        creates(op, counters(s)) == (Counts { slots: s.slots + 1, ..counters(s) }),
    ensures
        #[trigger] sound(slot_op(s, op).1),
        grew(s, slot_op(s, op).1),
        slot_op(s, op).0 < slot_op(s, op).1.slots,
{
    lemma_sound_step(s, op, slot_op(s, op).1);
}

/// An imported function.
pub broadcast proof fn lemma_func_sound(s: PlanState, name: Seq<char>)
    requires
        sound(s),
    ensures
        #[trigger] sound(func_op(s, name).1),
        grew(s, func_op(s, name).1),
        func_op(s, name).0 < func_op(s, name).1.funcs,
{
    lemma_sound_step(s, OpView::DeclareFunc { name }, func_op(s, name).1);
}

/// A variable in scope under a name.
pub broadcast proof fn lemma_with_variable_sound(s: PlanState, name: Seq<char>, var: nat)
    requires
        sound(s),
        var < s.vars,
    ensures
        #[trigger] sound(with_variable(s, name, var)),
        grew(s, with_variable(s, name, var)),
{
    let t = with_variable(s, name, var);
    lemma_sound_kept(s);
    assert forall|i: int| 0 <= i < t.variables.len() implies #[trigger] t.variables[i].1 < t.vars by {
        if i < s.variables.len() {
            assert(t.variables[i] == s.variables[i]);
        }
    }
    lemma_sound_rekept(s, t);
}

/// A name's entry is one of the entries.
pub proof fn lemma_lookup_in(entries: Seq<(Seq<char>, nat)>, name: Seq<char>, bound: nat)
    requires
        forall|i: int| 0 <= i < entries.len() ==> #[trigger] entries[i].1 < bound,
    ensures
        lookup(entries, name) matches Some(v) ==> v < bound,
    decreases entries.len(),
{
    if entries.len() > 0 {
        let rest = entries.drop_last();
        assert forall|i: int| 0 <= i < rest.len() implies #[trigger] rest[i].1 < bound by {
            assert(rest[i] == entries[i]);
        }
        lemma_lookup_in(rest, name, bound);
    }
}

/// A mutably captured variable's slot is one of the slots.
pub proof fn lemma_slot_of_in(slots: Seq<(Seq<char>, nat, nat)>, name: Seq<char>, n_slots: nat, n_values: nat)
    requires
        forall|i: int| 0 <= i < slots.len() ==> #[trigger] slots[i].1 < n_slots && slots[i].2 < n_values,
    ensures
        slot_of(slots, name) matches Some((sl, like)) ==> sl < n_slots && like < n_values,
    decreases slots.len(),
{
    if slots.len() > 0 && slots[0].0 != name {
        let rest = slots.drop_first();
        assert forall|i: int| 0 <= i < rest.len() implies #[trigger] rest[i].1 < n_slots && rest[i].2
            < n_values by {
            assert(rest[i] == slots[i + 1]);
        }
        lemma_slot_of_in(rest, name, n_slots, n_values);
    }
}

/// The sound results of a planning step: the state is sound, nothing was
/// taken away, and the value it gives, if any, exists.
pub open spec fn sound_val(s: PlanState, r: Option<(Option<nat>, PlanState)>) -> bool {
    r matches Some((v, t)) ==> sound(t) && grew(s, t) && t.loops == s.loops && (v matches Some(x) ==> x
        < t.values)
}

/// The same for a step that gives a value.
pub open spec fn sound_nat(s: PlanState, r: Option<(nat, PlanState)>) -> bool {
    r matches Some((v, t)) ==> sound(t) && grew(s, t) && t.loops == s.loops && v < t.values
}

/// The same for a step that gives values.
pub open spec fn sound_ids(s: PlanState, r: Option<(Seq<nat>, PlanState)>) -> bool {
    r matches Some((v, t)) ==> sound(t) && grew(s, t) && t.loops == s.loops && all_below(v, t.values)
}

/// The same for a step that gives a flag.
pub open spec fn sound_flag(s: PlanState, r: Option<(bool, PlanState)>) -> bool {
    r matches Some((_, t)) ==> sound(t) && grew(s, t) && t.loops == s.loops
}

/// The same for a step that gives only a state.
pub open spec fn sound_state(s: PlanState, r: Option<PlanState>) -> bool {
    r matches Some(t) ==> sound(t) && grew(s, t) && t.loops == s.loops
}

proof fn lemma_call_for_value_sound(env: PlanEnv, s: PlanState, name: Seq<char>, args: Seq<nat>)
    requires
        sound(s),
        all_below(args, s.values),
    ensures
        sound_nat(s, call_for_value(env, s, name, args)),
{
    broadcast use lemma_func_sound, lemma_value_sound;

    if callee_returns(env.callees, name) == Some(true) {
        let (f, s1) = func_op(s, name);
        assert(sound(s1));
        assert(uses_ok(OpView::Call { func: f, args, has_result: true }, counters(s1)));
    }
}

proof fn lemma_formatted_sound<'src>(env: PlanEnv, s: PlanState, v: nat, part: ast::Expr<'src>)
    requires
        sound(s),
        v < s.values,
    ensures
        sound_nat(s, formatted(env, s, v, part)),
{
    assert(all_below(seq![v], s.values));
    lemma_call_for_value_sound(env, s, "rt_int_to_str"@, seq![v]);
    lemma_call_for_value_sound(env, s, "rt_double_to_str"@, seq![v]);
}

proof fn lemma_reload_sound(s: PlanState, slots: Seq<(Seq<char>, nat, nat)>, n: int)
    requires
        sound(s),
        forall|i: int| 0 <= i < slots.len() ==> #[trigger] slots[i].1 < s.slots && slots[i].2 < s.values,
    ensures
        sound(reload(s, slots, n)),
        grew(s, reload(s, slots, n)),
        reload(s, slots, n).loops == s.loops,
    decreases n,
{
    broadcast use lemma_emit_sound, lemma_value_sound;

    if 0 < n <= slots.len() {
        lemma_reload_sound(s, slots, n - 1);
        let s1 = reload(s, slots, n - 1);
        lemma_sound_kept(s1);
        lemma_lookup_in(s1.variables, slots[n - 1].0, s1.vars);
        if let Some(var) = lookup(s1.variables, slots[n - 1].0) {
            let op = OpView::StackLoadLike { slot: slots[n - 1].1, like: slots[n - 1].2 };
            assert(uses_ok(op, counters(s1)));
            let (v, s2) = value_op(s1, op);
            assert(sound(s2));
            assert(uses_ok(OpView::DefVar { var, value: v }, counters(s2)));
        }
    }
}

proof fn lemma_store_captures_sound(
    env: PlanEnv,
    s: PlanState,
    caps: Seq<(Seq<char>, bool)>,
    n: int,
    env_slot: nat,
)
    requires
        sound(s),
        env_slot < s.slots,
    ensures
        sound_state(s, store_captures(env, s, caps, n, env_slot)),
    decreases n,
{
    broadcast use lemma_emit_sound, lemma_value_sound, lemma_slot_sound;

    if 0 < n <= caps.len() {
        lemma_store_captures_sound(env, s, caps, n - 1, env_slot);
        if let Some(s1) = store_captures(env, s, caps, n - 1, env_slot) {
            let (name, is_mutable) = caps[n - 1];
            lemma_sound_kept(s1);
            lemma_lookup_in(s1.variables, name, s1.vars);
            if let (Some(offset), Some(var)) = (env_offset(n - 1, env.ptr_size), lookup(s1.variables, name)) {
                let (cur, s2) = value_op(s1, OpView::UseVar { var });
                assert(sound(s2));
                if is_mutable {
                    lemma_sound_kept(s2);
                    lemma_slot_of_in(s2.capture_slots, name, s2.slots, s2.values);
                    let (slot, s3) = match slot_of(s2.capture_slots, name) {
                        Some((sl, _)) => (sl, s2),
                        None => {
                            let (sl, t) = slot_op(s2, OpView::CreateSlotLike { value: cur });
                            (sl, PlanState { capture_slots: t.capture_slots.push((name, sl, cur)), ..t })
                        },
                    };
                    if slot_of(s2.capture_slots, name) is None {
                        let (sl, t) = slot_op(s2, OpView::CreateSlotLike { value: cur });
                        assert(sound(t));
                        lemma_sound_kept(t);
                        assert forall|i: int| 0 <= i < s3.capture_slots.len() implies #[trigger] s3.capture_slots[i].1
                            < s3.slots && s3.capture_slots[i].2 < s3.values by {
                            if i < t.capture_slots.len() {
                                assert(s3.capture_slots[i] == t.capture_slots[i]);
                            }
                        }
                        lemma_sound_rekept(t, s3);
                    }
                    assert(sound(s3));
                    let s4 = emit(s3, OpView::StackStore { value: cur, slot, offset: 0 });
                    assert(sound(s4));
                    let (ptr, s5) = value_op(s4, OpView::StackAddr { slot });
                    assert(sound(s5));
                    assert(uses_ok(OpView::StackStore { value: ptr, slot: env_slot, offset }, counters(s5)));
                } else {
                    assert(uses_ok(OpView::StackStore { value: cur, slot: env_slot, offset }, counters(s2)));
                }
            }
        }
    }
}

proof fn lemma_plan_closure_sound(env: PlanEnv, s: PlanState, mangled_name: Seq<char>, caps: Seq<(Seq<char>, bool)>)
    requires
        sound(s),
    ensures
        sound_val(s, plan_closure(env, s, mangled_name, caps)),
{
    broadcast use lemma_emit_sound, lemma_value_sound, lemma_slot_sound, lemma_func_sound;

    let name = mangled_name + "__trampoline"@;
    if callee_returns(env.callees, name) is Some {
        let (f, s1) = func_op(s, name);
        let (fn_ptr, s2) = value_op(s1, OpView::FuncAddr { func: f });
        assert(sound(s2));
        if caps.len() != 0 && (caps.len() as u32) * env.ptr_size <= u32::MAX {
            let (env_slot, s3) = slot_op(
                s2,
                OpView::CreateSlot { size: ((caps.len() as u32) * env.ptr_size) as u32 },
            );
            assert(sound(s3));
            lemma_store_captures_sound(env, s3, caps, caps.len() as int, env_slot);
        }
    }
}

/// A sound state with one more loop whose blocks were created.
proof fn lemma_push_loop_sound(s: PlanState, h: nat, x: nat)
    requires
        sound(s),
        h < s.blocks,
        x < s.blocks,
    ensures
        sound(PlanState { loops: s.loops.push((h, x)), ..s }),
{
    let t = PlanState { loops: s.loops.push((h, x)), ..s };
    lemma_sound_kept(s);
    assert forall|i: int| 0 <= i < t.loops.len() implies #[trigger] t.loops[i].0 < t.blocks && t.loops[i].1
        < t.blocks by {
        if i < s.loops.len() {
            assert(t.loops[i] == s.loops[i]);
        }
    }
    lemma_sound_rekept(s, t);
}

/// A sound state with its innermost loop left.
proof fn lemma_pop_loop_sound(s: PlanState)
    requires
        sound(s),
        s.loops.len() > 0,
    ensures
        sound(PlanState { loops: s.loops.drop_last(), ..s }),
{
    let t = PlanState { loops: s.loops.drop_last(), ..s };
    lemma_sound_kept(s);
    assert forall|i: int| 0 <= i < t.loops.len() implies #[trigger] t.loops[i].0 < t.blocks && t.loops[i].1
        < t.blocks by {
        assert(t.loops[i] == s.loops[i]);
    }
    lemma_sound_rekept(s, t);
}

/// Planning an `if` keeps the state sound, and its value exists.
proof fn lemma_plan_if_sound<'src>(env: PlanEnv, s: PlanState, e: ast::Expr<'src>)
    requires
        sound(s),
        e is If,
    ensures
        sound_val(s, plan_expr(env, s, e)),
    decreases e, 0int,
{
    broadcast use lemma_emit_sound, lemma_value_sound, lemma_block_sound;

    if let ast::Expr::If { ty, cond, then, else_block, .. } = e {
        lemma_plan_expr_sound(env, s, *cond);
        if let Some((Some(cv), s1)) = plan_expr(env, s, *cond) {
            let (tb, s2) = block_op(s1);
            let (eb, s3) = block_op(s2);
            let (mb, s4) = block_op(s3);
            assert(sound(s4));
            if !(ty is Ident) {
                let rt = crate::codegen::spec_machine_type(ty);
                let s5 = match rt {
                    Some(t) => emit(s4, OpView::AppendBlockParam { block: mb, ty: t }),
                    None => s4,
                };
                assert(sound(s5));
                let s6 = emit(s5, OpView::Brif { cond: cv, then_block: tb, else_block: eb });
                assert(sound(s6));
                let s7 = emit(
                    emit(s6, OpView::SwitchToBlock { block: tb }),
                    OpView::SealBlock { block: tb },
                );
                assert(sound(emit(s6, OpView::SwitchToBlock { block: tb })));
                assert(sound(s7));
                lemma_plan_branch_sound(env, s7, then, rt is Some, mb);
                if let Some(s8) = plan_branch(env, s7, then, rt is Some, mb) {
                    let s9 = emit(
                        emit(s8, OpView::SwitchToBlock { block: eb }),
                        OpView::SealBlock { block: eb },
                    );
                    assert(sound(emit(s8, OpView::SwitchToBlock { block: eb })));
                    assert(sound(s9));
                    match else_block {
                        Some(b) => {
                            lemma_plan_branch_sound(env, s9, b, rt is Some, mb);
                        },
                        None => {
                            assert(all_below(seq![], s9.values));
                            assert(sound(emit(s9, OpView::Jump { block: mb, args: seq![] })));
                        },
                    }
                    let s10 = match else_block {
                        Some(b) => plan_branch(env, s9, b, rt is Some, mb),
                        None => Some(emit(s9, OpView::Jump { block: mb, args: seq![] })),
                    };
                    if let Some(s10) = s10 {
                        assert(sound(emit(s10, OpView::SwitchToBlock { block: mb })));
                        let s11 = emit(
                            emit(s10, OpView::SwitchToBlock { block: mb }),
                            OpView::SealBlock { block: mb },
                        );
                        assert(sound(s11));
                        if rt is Some {
                            assert(sound(value_op(s11, OpView::BlockParam { block: mb, index: 0 }).1));
                        }
                    }
                }
            }
        }
    
    }
}

/// Planning an expression keeps the state sound, and the value it gives
/// exists.
pub proof fn lemma_plan_expr_sound<'src>(env: PlanEnv, s: PlanState, e: ast::Expr<'src>)
    requires
        sound(s),
    ensures
        sound_val(s, plan_expr(env, s, e)),
    decreases e, 1int,
{
    broadcast use lemma_emit_sound, lemma_value_sound, lemma_block_sound;

    match e {
        ast::Expr::StringInterpolation(parts) => {
            lemma_plan_parts_sound(env, s, parts@, parts@.len() as int);
        },
        ast::Expr::Ident { ident, .. } => {
            lemma_sound_kept(s);
            lemma_lookup_in(s.variables, ident.inner@, s.vars);
        },
        ast::Expr::Binary { op, left, right, .. } => {
            lemma_plan_expr_sound(env, s, *left);
            if let Some((Some(l), s1)) = plan_expr(env, s, *left) {
                lemma_plan_expr_sound(env, s1, *right);
            }
        },
        ast::Expr::Call { call, ty } => {
            lemma_plan_call_sound(env, s, call, ty);
        },
        ast::Expr::If { .. } => {
            lemma_plan_if_sound(env, s, e);
        },
        ast::Expr::Closure { mangled_name, captures, .. } => {
            lemma_plan_closure_sound(env, s, mangled_name@, crate::plan::capture_modes(captures@));
        },
        _ => {},
    }
}

/// Planning a call keeps the state sound.
pub proof fn lemma_plan_call_sound<'src>(env: PlanEnv, s: PlanState, call: ast::Call<'src>, ret_ty: ast::TypeKind<'src>)
    requires
        sound(s),
    ensures
        sound_val(s, plan_call(env, s, call, ret_ty)),
    decreases call, 0int,
{
    broadcast use lemma_emit_sound, lemma_value_sound, lemma_func_sound;

    lemma_sound_kept(s);
    lemma_lookup_in(s.variables, call.callee@, s.vars);
    match lookup(s.variables, call.callee@) {
        Some(cv) => {
            let (cp, s1) = value_op(s, OpView::UseVar { var: cv });
            assert(sound(s1));
            let (fp, s2) = value_op(s1, OpView::Load { ty: crate::codegen::MachineType::Pointer, base: cp, offset: 0 });
            assert(sound(s2));
            let (ep, s3) = value_op(
                s2,
                OpView::Load { ty: crate::codegen::MachineType::Pointer, base: cp, offset: env.ptr_size as i32 },
            );
            assert(sound(s3));
            lemma_plan_args_sound(env, s3, call.args@, call.args@.len() as int);
            if let Some((vals, s4)) = plan_args(env, s3, call.args@, call.args@.len() as int) {
                if let Some(tys) = crate::plan::arg_types(call.args@, call.args@.len() as int) {
                    if !(ret_ty is Ident) {
                        let ret = crate::codegen::spec_machine_type(ret_ty);
                        let args = seq![ep] + vals;
                        assert(all_below(args, s4.values)) by {
                            assert forall|i: int| 0 <= i < args.len() implies #[trigger] args[i] < s4.values by {
                                if i > 0 {
                                    assert(args[i] == vals[i - 1]);
                                }
                            }
                        }
                        let op = OpView::CallIndirect {
                            params: seq![crate::codegen::MachineType::Pointer] + tys,
                            ret,
                            callee: fp,
                            args,
                        };
                        assert(uses_ok(op, counters(s4)));
                        let (r, s5) = if ret is Some {
                            let (v, t) = value_op(s4, op);
                            (Some(v), t)
                        } else {
                            (None, emit(s4, op))
                        };
                        assert(sound(s5));
                        lemma_sound_kept(s5);
                        lemma_reload_sound(s5, s5.capture_slots, s5.capture_slots.len() as int);
                    }
                }
            }
        },
        None => {
            if let Some(has_result) = callee_returns(env.callees, call.callee@) {
                let (f, s1) = func_op(s, call.callee@);
                assert(sound(s1));
                lemma_plan_args_sound(env, s1, call.args@, call.args@.len() as int);
                if let Some((vals, s2)) = plan_args(env, s1, call.args@, call.args@.len() as int) {
                    assert(uses_ok(OpView::Call { func: f, args: vals, has_result }, counters(s2)));
                }
            }
        },
    }
}

/// Planning arguments keeps the state sound, and their values exist.
pub proof fn lemma_plan_args_sound<'src>(env: PlanEnv, s: PlanState, es: Seq<ast::Expr<'src>>, n: int)
    requires
        sound(s),
    ensures
        sound_ids(s, plan_args(env, s, es, n)),
    decreases es, n,
{
    if 0 < n <= es.len() {
        lemma_plan_args_sound(env, s, es, n - 1);
        if let Some((vals, s1)) = plan_args(env, s, es, n - 1) {
            lemma_plan_expr_sound(env, s1, es[n - 1]);
            if let Some((Some(v), s2)) = plan_expr(env, s1, es[n - 1]) {
                let all = vals.push(v);
                assert forall|i: int| 0 <= i < all.len() implies #[trigger] all[i] < s2.values by {
                    if i < vals.len() {
                        assert(all[i] == vals[i]);
                    }
                }
            }
        }
    } else {
        assert(all_below(Seq::<nat>::empty(), s.values));
    }
}

/// Planning an interpolation keeps the state sound.
pub proof fn lemma_plan_parts_sound<'src>(env: PlanEnv, s: PlanState, es: Seq<ast::Expr<'src>>, n: int)
    requires
        sound(s),
    ensures
        sound_nat(s, plan_parts(env, s, es, n)),
    decreases es, n,
{
    broadcast use lemma_value_sound;

    if 0 < n <= es.len() {
        lemma_plan_parts_sound(env, s, es, n - 1);
        if let Some((acc, s1)) = plan_parts(env, s, es, n - 1) {
            lemma_plan_expr_sound(env, s1, es[n - 1]);
            if let Some((Some(v), s2)) = plan_expr(env, s1, es[n - 1]) {
                lemma_formatted_sound(env, s2, v, es[n - 1]);
                if let Some((t, s3)) = formatted(env, s2, v, es[n - 1]) {
                    assert(all_below(seq![acc, t], s3.values));
                    lemma_call_for_value_sound(env, s3, "rt_concat"@, seq![acc, t]);
                }
            }
        }
    }
}

/// Planning a branch of an `if` keeps the state sound.
pub proof fn lemma_plan_branch_sound<'src>(env: PlanEnv, s: PlanState, b: ast::Block<'src>, has_value: bool, mb: nat)
    requires
        sound(s),
        mb < s.blocks,
    ensures
        sound_state(s, plan_branch(env, s, b, has_value, mb)),
    decreases b, 0int,
{
    broadcast use lemma_emit_sound;

    let ss = b.statements@;
    if ss.len() > 0 {
        lemma_plan_stmts_sound(env, s, ss, ss.len() - 1);
        if let Some((_, s1)) = plan_stmts(env, s, ss, ss.len() - 1) {
            if has_value {
                if let ast::Statement::Expr(e) = ss[ss.len() - 1] {
                    lemma_plan_expr_sound(env, s1, e);
                    if let Some((Some(v), s2)) = plan_expr(env, s1, e) {
                        assert(all_below(seq![v], s2.values));
                        assert(uses_ok(OpView::Jump { block: mb, args: seq![v] }, counters(s2)));
                    }
                }
            } else {
                lemma_plan_stmt_sound(env, s1, ss[ss.len() - 1]);
                if let Some((_, s2)) = plan_stmt(env, s1, ss[ss.len() - 1]) {
                    assert(all_below(seq![], s2.values));
                    assert(uses_ok(OpView::Jump { block: mb, args: seq![] }, counters(s2)));
                }
            }
        }
    }
}

/// Planning statements keeps the state sound.
pub proof fn lemma_plan_stmts_sound<'src>(env: PlanEnv, s: PlanState, ss: Seq<ast::Statement<'src>>, n: int)
    requires
        sound(s),
    ensures
        sound_flag(s, plan_stmts(env, s, ss, n)),
    decreases ss, n,
{
    if 0 < n <= ss.len() {
        lemma_plan_stmts_sound(env, s, ss, n - 1);
        if let Some((_, s1)) = plan_stmts(env, s, ss, n - 1) {
            lemma_plan_stmt_sound(env, s1, ss[n - 1]);
        }
    }
}

/// Planning a statement keeps the state sound.
pub proof fn lemma_plan_stmt_sound<'src>(env: PlanEnv, s: PlanState, st: ast::Statement<'src>)
    requires
        sound(s),
    ensures
        sound_flag(s, plan_stmt(env, s, st)),
    decreases st, 0int,
{
    broadcast use lemma_emit_sound, lemma_value_sound, lemma_block_sound, lemma_var_sound,
        lemma_with_variable_sound;

    match st {
        ast::Statement::Let { name, expr, .. } => {
            lemma_plan_expr_sound(env, s, expr);
            if let Some((Some(v), s1)) = plan_expr(env, s, expr) {
                let (var, s2) = var_op(s1, OpView::DeclareVarLike { value: v });
                assert(sound(s2));
                let s3 = emit(s2, OpView::DefVar { var, value: v });
                assert(sound(s3));
                lemma_with_variable_sound(s3, name.inner@, var);
            }
        },
        ast::Statement::Assign { name, expr } => {
            lemma_plan_expr_sound(env, s, expr);
            if let Some((Some(v), s1)) = plan_expr(env, s, expr) {
                lemma_sound_kept(s1);
                lemma_lookup_in(s1.capture_ptrs, name.inner@, s1.vars);
                let s2 = match lookup(s1.capture_ptrs, name.inner@) {
                    Some(pv) => {
                        let (p, t) = value_op(s1, OpView::UseVar { var: pv });
                        emit(t, OpView::Store { value: v, base: p })
                    },
                    None => s1,
                };
                if let Some(pv) = lookup(s1.capture_ptrs, name.inner@) {
                    let (p, t) = value_op(s1, OpView::UseVar { var: pv });
                    assert(sound(t));
                }
                assert(sound(s2));
                lemma_sound_kept(s2);
                lemma_lookup_in(s2.variables, name.inner@, s2.vars);
            }
        },
        ast::Statement::Return { expr } => {
            assert(all_below(seq![], s.values));
            if let Some(e) = expr {
                lemma_plan_expr_sound(env, s, e);
                if let Some((Some(v), s1)) = plan_expr(env, s, e) {
                    assert(all_below(seq![v], s1.values));
                }
            }
        },
        ast::Statement::ForLoop { cond, block } => {
            let (h, s1) = block_op(s);
            let (b, s2) = block_op(s1);
            let (x, s3) = block_op(s2);
            assert(sound(s3));
            lemma_push_loop_sound(s3, h, x);
            let s4 = PlanState { loops: s3.loops.push((h, x)), ..s3 };
            assert(all_below(seq![], s4.values));
            assert(sound(emit(s4, OpView::Jump { block: h, args: seq![] })));
            let s5 = emit(emit(s4, OpView::Jump { block: h, args: seq![] }), OpView::SwitchToBlock { block: h });
            assert(sound(s5));
            match cond {
                Some(c) => {
                    lemma_plan_expr_sound(env, s5, c);
                },
                None => {},
            }
            let c = match cond {
                Some(c) => match plan_expr(env, s5, c) {
                    Some((Some(v), t)) => Some((v, t)),
                    _ => None,
                },
                None => Some(value_op(s5, OpView::Iconst { ty: crate::codegen::MachineType::I64, imm: 1 })),
            };
            if let Some((cv, s6)) = c {
                assert(sound(s6));
                let s7 = emit(s6, OpView::Brif { cond: cv, then_block: b, else_block: x });
                assert(sound(s7));
                assert(sound(emit(s7, OpView::SwitchToBlock { block: b })));
                let s8 = emit(emit(s7, OpView::SwitchToBlock { block: b }), OpView::SealBlock { block: b });
                assert(sound(s8));
                lemma_plan_stmts_sound(env, s8, block.statements@, block.statements@.len() as int);
                if let Some((last_terminates, s9)) = plan_stmts(env, s8, block.statements@, block.statements@.len() as int) {
                    assert(all_below(seq![], s9.values));
                    let s10 = if last_terminates {
                        s9
                    } else {
                        emit(s9, OpView::Jump { block: h, args: seq![] })
                    };
                    assert(sound(s10));
                    assert(sound(emit(s10, OpView::SwitchToBlock { block: x })));
                    assert(sound(emit(emit(s10, OpView::SwitchToBlock { block: x }), OpView::SealBlock { block: h })));
                    let s11 = emit(
                        emit(emit(s10, OpView::SwitchToBlock { block: x }), OpView::SealBlock { block: h }),
                        OpView::SealBlock { block: x },
                    );
                    assert(sound(s11));
                    assert(s11.loops == s3.loops.push((h, x)));
                    assert(s3.loops.push((h, x)).drop_last() =~= s3.loops);
                    lemma_pop_loop_sound(s11);
                }
            }
        },
        ast::Statement::Expr(e) => {
            lemma_plan_expr_sound(env, s, e);
        },
        ast::Statement::Break => {
            lemma_sound_kept(s);
            assert(all_below(seq![], s.values));
            if s.loops.len() > 0 {
                assert(s.loops[s.loops.len() - 1] == s.loops.last());
            }
        },
        ast::Statement::Continue => {
            lemma_sound_kept(s);
            assert(all_below(seq![], s.values));
            if s.loops.len() > 0 {
                assert(s.loops[s.loops.len() - 1] == s.loops.last());
            }
        },
        _ => {},
    }
}

proof fn lemma_empty_sound()
    ensures
        sound(empty_state()),
{
    reveal(sound);
    assert(counts(empty_state().ops) == counters(empty_state()));
}

proof fn lemma_entry_block_sound(s: PlanState)
    requires
        sound(s),
    ensures
        sound(entry_block(s).1),
        entry_block(s).0 < entry_block(s).1.blocks,
        entry_block(s).1.loops == s.loops,
{
    broadcast use lemma_emit_sound, lemma_block_sound;

    let (b0, s1) = block_op(s);
    assert(sound(s1));
    assert(sound(emit(s1, OpView::AppendFunctionParams { block: b0 })));
    assert(sound(emit(emit(s1, OpView::AppendFunctionParams { block: b0 }), OpView::SwitchToBlock { block: b0 })));
}

proof fn lemma_bind_params_sound<'src>(s: PlanState, ps: Seq<ast::Param<'src>>, n: int, b0: nat)
    requires
        sound(s),
        b0 < s.blocks,
    ensures
        sound_state(s, bind_params(s, ps, n, b0)),
    decreases n,
{
    broadcast use lemma_emit_sound, lemma_value_sound, lemma_var_sound, lemma_with_variable_sound;

    if 0 < n <= ps.len() {
        lemma_bind_params_sound(s, ps, n - 1, b0);
        if let Some(s1) = bind_params(s, ps, n - 1, b0) {
            let (val, s2) = value_op(s1, OpView::BlockParam { block: b0, index: (n - 1) as nat });
            assert(sound(s2));
            if let Some(ty) = crate::codegen::spec_machine_type(ps[n - 1].ty) {
                lemma_sound_kept(s2);
                lemma_lookup_in(s2.variables, ps[n - 1].name.inner@, s2.vars);
                if lookup(s2.variables, ps[n - 1].name.inner@) is None {
                    let (v, t) = var_op(s2, OpView::DeclareVar { ty });
                    assert(sound(t));
                    lemma_with_variable_sound(t, ps[n - 1].name.inner@, v);
                }
                let (var, s3) = match lookup(s2.variables, ps[n - 1].name.inner@) {
                    Some(v) => (v, s2),
                    None => {
                        let (v, t) = var_op(s2, OpView::DeclareVar { ty });
                        (v, with_variable(t, ps[n - 1].name.inner@, v))
                    },
                };
                assert(sound(s3));
                assert(uses_ok(OpView::DefVar { var, value: val }, counters(s3)));
            }
        }
    }
}

proof fn lemma_bind_closure_params_sound<'src>(s: PlanState, ps: Seq<ast::Param<'src>>, n: int, b0: nat, sig_len: nat)
    requires
        sound(s),
        b0 < s.blocks,
    ensures
        sound_state(s, bind_closure_params(s, ps, n, b0, sig_len)),
    decreases n,
{
    broadcast use lemma_emit_sound, lemma_value_sound, lemma_var_sound, lemma_with_variable_sound;

    if 0 < n <= ps.len() {
        lemma_bind_closure_params_sound(s, ps, n - 1, b0, sig_len);
        if let Some(s1) = bind_closure_params(s, ps, n - 1, b0, sig_len) {
            if let Some(ty) = crate::codegen::spec_machine_type(ps[n - 1].ty) {
                if !(ps[n - 1].ty is Ident) && n < sig_len {
                    let (val, s2) = value_op(s1, OpView::BlockParam { block: b0, index: n as nat });
                    assert(sound(s2));
                    let (var, s3) = var_op(s2, OpView::DeclareVar { ty });
                    assert(sound(s3));
                    let s4 = emit(s3, OpView::DefVar { var, value: val });
                    assert(sound(s4));
                    lemma_with_variable_sound(s4, ps[n - 1].name.inner@, var);
                }
            }
        }
    }
}

proof fn lemma_load_captures_sound<'src>(
    env: PlanEnv,
    s: PlanState,
    caps: Seq<(String, ast::TypeKind<'src>, bool)>,
    n: int,
    env_ptr: nat,
)
    requires
        sound(s),
        env_ptr < s.values,
    ensures
        sound_state(s, load_captures(env, s, caps, n, env_ptr)),
    decreases n,
{
    broadcast use lemma_emit_sound, lemma_value_sound, lemma_var_sound, lemma_with_variable_sound;

    if 0 < n <= caps.len() {
        lemma_load_captures_sound(env, s, caps, n - 1, env_ptr);
        if let Some(s1) = load_captures(env, s, caps, n - 1, env_ptr) {
            let (name, ty, is_mutable) = caps[n - 1];
            if let Some(cl_ty) = crate::codegen::spec_machine_type(ty) {
                if !(ty is Ident) && !(((n - 1) as i32) * (env.ptr_size as i32) > i32::MAX || ((n - 1) as i32)
                    * (env.ptr_size as i32) < i32::MIN) {
                    let offset = (((n - 1) as i32) * (env.ptr_size as i32)) as i32;
                    if is_mutable {
                        let (pv, s2) = value_op(
                            s1,
                            OpView::Load { ty: crate::codegen::MachineType::Pointer, base: env_ptr, offset },
                        );
                        assert(sound(s2));
                        let (pvar, s3) = var_op(s2, OpView::DeclareVar { ty: crate::codegen::MachineType::Pointer });
                        assert(sound(s3));
                        let s4 = emit(s3, OpView::DefVar { var: pvar, value: pv });
                        assert(sound(s4));
                        let s5 = PlanState { capture_ptrs: s4.capture_ptrs.push((name@, pvar)), ..s4 };
                        lemma_sound_kept(s4);
                        assert forall|i: int| 0 <= i < s5.capture_ptrs.len() implies #[trigger] s5.capture_ptrs[i].1
                            < s5.vars by {
                            if i < s4.capture_ptrs.len() {
                                assert(s5.capture_ptrs[i] == s4.capture_ptrs[i]);
                            }
                        }
                        lemma_sound_rekept(s4, s5);
                        let (val, s6) = value_op(s5, OpView::Load { ty: cl_ty, base: pv, offset: 0 });
                        assert(sound(s6));
                        let (var, s7) = var_op(s6, OpView::DeclareVar { ty: cl_ty });
                        assert(sound(s7));
                        let s8 = emit(s7, OpView::DefVar { var, value: val });
                        assert(sound(s8));
                        lemma_with_variable_sound(s8, name@, var);
                    } else {
                        let (val, s2) = value_op(s1, OpView::Load { ty: cl_ty, base: env_ptr, offset });
                        assert(sound(s2));
                        let (var, s3) = var_op(s2, OpView::DeclareVar { ty: cl_ty });
                        assert(sound(s3));
                        let s4 = emit(s3, OpView::DefVar { var, value: val });
                        assert(sound(s4));
                        lemma_with_variable_sound(s4, name@, var);
                    }
                }
            }
        }
    }
}

proof fn lemma_plan_body_sound<'src>(
    env: PlanEnv,
    s: PlanState,
    ss: Seq<ast::Statement<'src>>,
    ret: Option<crate::codegen::MachineType>,
    is_closure: bool,
)
    requires
        sound(s),
    ensures
        sound_state(s, plan_body(env, s, ss, ret, is_closure)),
{
    broadcast use lemma_emit_sound;

    assert(all_below(seq![], s.values));
    if ss.len() > 0 {
        lemma_plan_stmts_sound(env, s, ss, ss.len() - 1);
        if let Some((_, s1)) = plan_stmts(env, s, ss, ss.len() - 1) {
            let last = ss[ss.len() - 1];
            lemma_plan_stmt_sound(env, s1, last);
            if last is Expr {
                lemma_plan_expr_sound(env, s1, last->Expr_0);
                if let Some((Some(v), s2)) = plan_expr(env, s1, last->Expr_0) {
                    assert(all_below(seq![v], s2.values));
                }
            }
            if let Some((_, s2)) = plan_stmt(env, s1, last) {
                assert(all_below(seq![], s2.values));
            }
        }
    }
}

proof fn lemma_plan_print_sound(env: PlanEnv, s: PlanState)
    requires
        sound(s),
    ensures
        sound_state(s, plan_print(env, s)),
{
    broadcast use lemma_emit_sound, lemma_value_sound, lemma_func_sound;

    if let Some(r) = callee_returns(env.callees, "rt_print_str"@) {
        let (f, s1) = func_op(s, "rt_print_str"@);
        assert(sound(s1));
        lemma_sound_kept(s1);
        lemma_lookup_in(s1.variables, "message"@, s1.vars);
        if let Some(var) = lookup(s1.variables, "message"@) {
            let (v, s2) = value_op(s1, OpView::UseVar { var });
            assert(sound(s2));
            assert(all_below(seq![v], s2.values));
            let op = OpView::Call { func: f, args: seq![v], has_result: r };
            assert(uses_ok(op, counters(s2)));
            let s3 = if r {
                value_op(s2, op).1
            } else {
                emit(s2, op)
            };
            assert(sound(s3));
            assert(all_below(seq![], s3.values));
        }
    }
}

proof fn lemma_sound_well_formed(s: PlanState)
    requires
        sound(s),
    ensures
        well_formed(s.ops),
{
    reveal(sound);
}

proof fn lemma_plan_function_well_formed<'src>(env: PlanEnv, f: ast::Function<'src>)
    ensures
        plan_function(env, f) matches Some(p) ==> well_formed(p.ops),
{
    lemma_empty_sound();
    let (b0, s1) = entry_block(empty_state());
    lemma_entry_block_sound(empty_state());
    lemma_bind_params_sound(s1, f.params@, f.params@.len() as int, b0);
    if let Some(s2) = bind_params(s1, f.params@, f.params@.len() as int, b0) {
        let ret = crate::codegen::spec_machine_type(f.ret_ty);
        lemma_plan_print_sound(env, s2);
        lemma_plan_body_sound(env, s2, f.body.statements@, ret, false);
        let end = if f.name@ == "std.io.print"@ {
            plan_print(env, s2)
        } else {
            plan_body(env, s2, f.body.statements@, ret, false)
        };
        if let Some(s3) = end {
            lemma_sound_well_formed(s3);
        }
    }
}

proof fn lemma_plan_trampoline_well_formed<'src>(env: PlanEnv, c: ast::Expr<'src>)
    ensures
        plan_trampoline(env, c) matches Some(p) ==> well_formed(p.ops),
{
    broadcast use lemma_value_sound;

    if let ast::Expr::Closure { mangled_name, params, ret_ty, body, captures } = c {
        if let Some(tys) = present_types(params@, params@.len() as int) {
            let sig = seq![crate::codegen::MachineType::Pointer] + tys;
            let ret = crate::codegen::spec_machine_type(ret_ty);
            lemma_empty_sound();
            let (b0, s1) = entry_block(empty_state());
            lemma_entry_block_sound(empty_state());
            let (env_ptr, s2) = value_op(s1, OpView::BlockParam { block: b0, index: 0 });
            assert(sound(s2));
            lemma_bind_closure_params_sound(s2, params@, params@.len() as int, b0, sig.len());
            if let Some(s3) = bind_closure_params(s2, params@, params@.len() as int, b0, sig.len()) {
                lemma_load_captures_sound(env, s3, captures@, captures@.len() as int, env_ptr);
                if let Some(s4) = load_captures(env, s3, captures@, captures@.len() as int, env_ptr) {
                    lemma_plan_body_sound(env, s4, body.statements@, ret, true);
                    if let Some(s5) = plan_body(env, s4, body.statements@, ret, true) {
                        lemma_sound_well_formed(s5);
                    }
                }
            }
        }
    }
}

proof fn lemma_plan_trampolines_well_formed<'src>(env: PlanEnv, cs: Seq<ast::Expr<'src>>, n: int)
    ensures
        plan_trampolines(env, cs, n) matches Some(ps) ==> forall|i: int|
            0 <= i < ps.len() ==> well_formed(#[trigger] ps[i].ops),
    decreases n,
{
    if 0 < n <= cs.len() {
        lemma_plan_trampolines_well_formed(env, cs, n - 1);
        lemma_plan_trampoline_well_formed(env, cs[n - 1]);
    }
}

proof fn lemma_plan_functions_well_formed<'src>(env: PlanEnv, fs: Seq<ast::Function<'src>>, n: int)
    ensures
        plan_functions(env, fs, n) matches Some(ps) ==> forall|i: int|
            0 <= i < ps.len() ==> well_formed(#[trigger] ps[i].ops),
    decreases n,
{
    if 0 < n <= fs.len() {
        lemma_plan_functions_well_formed(env, fs, n - 1);
        lemma_plan_function_well_formed(env, fs[n - 1]);
    }
}

/// The code generator never refers to what it has not made: in the plan of
/// every function of a program, each call uses only values, blocks,
/// variables, stack slots and imported functions that earlier calls of the
/// same function created.
pub proof fn law_plans_are_well_formed<'src>(p: ast::Program<'src>, ptr_size: u32)
    ensures
        plan_program_spec(p, ptr_size) matches Some(plan) ==> forall|i: int|
            0 <= i < plan.bodies.len() ==> well_formed(#[trigger] plan.bodies[i].ops),
{
    let ds = p.declarations@;
    let fs = crate::plan::functions_of(ds, ds.len() as int);
    let cs = crate::codegen::closures_in_decls(ds, ds.len() as int);
    if let Some(plan) = plan_program_spec(p, ptr_size) {
        let fd = crate::plan::function_decls(fs, fs.len() as int)->0;
        let td = crate::plan::trampoline_decls(cs, cs.len() as int)->0;
        let decls = crate::plan::runtime_decls() + fd + td;
        let env = PlanEnv { ptr_size, callees: crate::plan::callees_of(decls) };
        lemma_plan_trampolines_well_formed(env, cs, cs.len() as int);
        lemma_plan_functions_well_formed(env, fs, fs.len() as int);
        let tb = plan_trampolines(env, cs, cs.len() as int)->0;
        let fb = plan_functions(env, fs, fs.len() as int)->0;
        assert(plan.bodies == tb + fb);
        assert forall|i: int| 0 <= i < plan.bodies.len() implies well_formed(#[trigger] plan.bodies[i].ops) by {
            if i < tb.len() {
                assert(plan.bodies[i] == tb[i]);
            } else {
                assert(plan.bodies[i] == fb[i - tb.len()]);
            }
        }
    }
}

proof fn lemma_trampoline_names<'src>(env: PlanEnv, cs: Seq<ast::Expr<'src>>, n: int)
    requires
        0 <= n <= cs.len(),
    ensures
        plan_trampolines(env, cs, n) matches Some(ps) ==> crate::plan::trampoline_decls(cs, n) matches Some(ds)
            ==> ps.len() == ds.len() && forall|i: int| 0 <= i < ps.len() ==> #[trigger] ps[i].name == ds[i].name,
    decreases n,
{
    if n > 0 {
        lemma_trampoline_names(env, cs, n - 1);
        if let (Some(p), Some(d)) = (plan_trampoline(env, cs[n - 1]), trampoline_decl(cs[n - 1])) {
            assert(p.name == d.name);
        }
    }
}

proof fn lemma_function_names<'src>(env: PlanEnv, fs: Seq<ast::Function<'src>>, n: int)
    requires
        0 <= n <= fs.len(),
    ensures
        plan_functions(env, fs, n) matches Some(ps) ==> crate::plan::function_decls(fs, n) matches Some(ds)
            ==> ps.len() == ds.len() && forall|i: int| 0 <= i < ps.len() ==> #[trigger] ps[i].name == ds[i].name,
    decreases n,
{
    if n > 0 {
        lemma_function_names(env, fs, n - 1);
        if let (Some(p), Some(d)) = (plan_function(env, fs[n - 1]), function_decl(fs[n - 1])) {
            assert(p.name == d.name);
        }
    }
}

/// A function of the given name is declared after the runtime's functions.
pub open spec fn declared(decls: Seq<crate::plan::DeclView>, name: Seq<char>) -> bool {
    exists|j: int| 3 <= j < decls.len() && #[trigger] decls[j].name == name
}

/// Every function the plan of a program compiles was declared first: the
/// compiled bodies are the trampolines and then the functions, in the order
/// of their declarations after the runtime's functions.
#[verifier::rlimit(40)]
pub proof fn law_bodies_are_declared<'src>(p: ast::Program<'src>, ptr_size: u32)
    ensures
        plan_program_spec(p, ptr_size) matches Some(plan) ==> {
            &&& plan.bodies.len() + 3 == plan.declarations.len()
            &&& forall|i: int|
                0 <= i < plan.bodies.len() ==> declared(plan.declarations, #[trigger] plan.bodies[i].name)
        },
{
    let ds = p.declarations@;
    let fs = crate::plan::functions_of(ds, ds.len() as int);
    let cs = crate::codegen::closures_in_decls(ds, ds.len() as int);
    if let Some(plan) = plan_program_spec(p, ptr_size) {
        let fd = crate::plan::function_decls(fs, fs.len() as int)->0;
        let td = crate::plan::trampoline_decls(cs, cs.len() as int)->0;
        let rd = crate::plan::runtime_decls();
        let decls = rd + fd + td;
        let env = PlanEnv { ptr_size, callees: crate::plan::callees_of(decls) };
        lemma_trampoline_names(env, cs, cs.len() as int);
        lemma_function_names(env, fs, fs.len() as int);
        let tb = plan_trampolines(env, cs, cs.len() as int)->0;
        let fb = plan_functions(env, fs, fs.len() as int)->0;
        assert(plan.bodies == tb + fb);
        assert(plan.declarations == decls);
        assert(rd.len() == 3);
        assert(tb.len() == td.len());
        assert(fb.len() == fd.len());
        assert forall|i: int| 0 <= i < plan.bodies.len() implies declared(
            plan.declarations,
            #[trigger] plan.bodies[i].name,
        ) by {
            if i < tb.len() {
                let j = 3 + fd.len() + i;
                assert(plan.bodies[i] == tb[i]);
                assert(plan.declarations[j] == td[i]);
                assert(plan.declarations[j].name == plan.bodies[i].name);
            } else {
                let k = i - tb.len();
                let j = 3 + k;
                assert(plan.bodies[i] == fb[k]);
                assert(plan.declarations[j] == fd[k]);
                assert(plan.declarations[j].name == plan.bodies[i].name);
            }
        }
    }
}

// ---------------------------------------------------------------------------
// Arithmetic
// ---------------------------------------------------------------------------

/// A binary expression is planned as its two operands, left then right,
/// followed by one instruction on their values that computes what the
/// operator means, whose result is the expression's value.
pub proof fn law_binary_expression_computes_its_operator<'src>(
    env: PlanEnv,
    s: PlanState,
    op: ast::BinaryOp,
    ty: ast::TypeKind<'src>,
    left: ast::Expr<'src>,
    right: ast::Expr<'src>,
)
    ensures
        plan_expr(
            env,
            s,
            ast::Expr::Binary { op, ty, left: Box::new(left), right: Box::new(right) },
        ) matches Some((Some(v), s3)) ==> {
            &&& plan_expr(env, s, left) matches Some((Some(l), s1))
            &&& plan_expr(env, s1, right) matches Some((Some(r), s2))
            &&& s3.ops == s2.ops.push(OpView::Binary { inst: s3.ops.last()->inst, left: l, right: r })
            &&& computes(s3.ops.last()->inst, op)
            &&& v == s2.values
        },
{
    if op != ast::BinaryOp::Exp && op != ast::BinaryOp::And {
        law_binary_inst_computes_operator(op);
    }
}

} // verus!
