use fowl::bir_ast as b;
use fowl::codegen::{IntCond, IntInst, Linkage, MachineType};
use fowl::plan::{checked_plan_program, plan_program, program_is_supported, Op};

fn function(name: &str, params: Vec<b::Param<'static>>, ret_ty: b::TypeKind<'static>, body: Vec<b::Statement<'static>>) -> b::Declaration<'static> {
    b::Declaration::Function(b::Function {
        name: name.to_string(),
        params,
        ret_ty,
        body: b::Block { statements: body },
        public: false,
    })
}

fn param(name: &'static str, ty: b::TypeKind<'static>) -> b::Param<'static> {
    b::Param { name: b::Ident { inner: name }, ty, default: None }
}

fn var(name: &'static str) -> b::Expr<'static> {
    b::Expr::Ident { ident: b::Ident { inner: name }, ty: b::TypeKind::Int }
}

fn entry() -> Vec<Op> {
    vec![
        Op::CreateBlock,
        Op::AppendFunctionParams { block: 0 },
        Op::SwitchToBlock { block: 0 },
        Op::SealBlock { block: 0 },
    ]
}

#[test]
fn main_returning_a_constant() {
    let program = b::Program {
        declarations: vec![function("main", vec![], b::TypeKind::Int, vec![b::Statement::Expr(b::Expr::IntLiteral(7))])],
    };
    let plan = plan_program(&program, 8);
    let names: Vec<&str> = plan.declarations.iter().map(|d| d.name.as_str()).collect();
    assert_eq!(names, vec!["rt_print_str", "rt_concat", "rt_int_to_str", "main"]);
    assert_eq!(plan.declarations[3].linkage, Linkage::Export);
    assert_eq!(plan.declarations[3].ret, Some(MachineType::I64));
    assert_eq!(plan.declarations[0].linkage, Linkage::Import);
    assert_eq!(plan.bodies.len(), 1);
    let mut expected = entry();
    expected.push(Op::Iconst { ty: MachineType::I64, imm: 7 });
    expected.push(Op::Return { values: vec![0] });
    assert_eq!(plan.bodies[0].ops, expected);
}

#[test]
fn program_without_main_has_no_plan() {
    let program = b::Program {
        declarations: vec![function("helper", vec![], b::TypeKind::Void, vec![])],
    };
    assert!(checked_plan_program(&program, 8).is_none());
}

#[test]
fn let_binds_a_variable_of_the_value_type() {
    let sum = b::Expr::Binary {
        op: b::BinaryOp::Lt,
        ty: b::TypeKind::Bool,
        left: Box::new(b::Expr::IntLiteral(1)),
        right: Box::new(b::Expr::IntLiteral(2)),
    };
    let program = b::Program {
        declarations: vec![function(
            "main",
            vec![],
            b::TypeKind::Void,
            vec![b::Statement::Let { name: b::Ident { inner: "a" }, expr: sum, mutable: false }],
        )],
    };
    let plan = plan_program(&program, 8);
    let mut expected = entry();
    expected.extend(vec![
        Op::Iconst { ty: MachineType::I64, imm: 1 },
        Op::Iconst { ty: MachineType::I64, imm: 2 },
        Op::Binary { inst: IntInst::Icmp(IntCond::SignedLessThan), left: 0, right: 1 },
        Op::DeclareVarLike { value: 2 },
        Op::DefVar { var: 0, value: 2 },
        Op::Return { values: vec![] },
    ]);
    assert_eq!(plan.bodies[0].ops, expected);
}

#[test]
fn parameters_become_variables_and_calls_are_planned() {
    let call = b::Expr::Call {
        call: b::Call { callee: "double".to_string(), args: vec![var("x")] },
        ty: b::TypeKind::Int,
    };
    let program = b::Program {
        declarations: vec![
            function("double", vec![param("x", b::TypeKind::Int)], b::TypeKind::Int, vec![b::Statement::Expr(var("x"))]),
            function("main", vec![param("x", b::TypeKind::Int)], b::TypeKind::Int, vec![b::Statement::Return { expr: Some(call) }]),
        ],
    };
    let plan = plan_program(&program, 8);
    assert_eq!(plan.bodies.len(), 2);
    assert_eq!(plan.bodies[1].name, "main");
    let mut expected = entry();
    expected.extend(vec![
        Op::BlockParam { block: 0, index: 0 },
        Op::DeclareVar { ty: MachineType::I64 },
        Op::DefVar { var: 0, value: 0 },
        Op::DeclareFunc { name: "double".to_string() },
        Op::UseVar { var: 0 },
        Op::Call { func: 0, args: vec![1], has_result: true },
        Op::Return { values: vec![2] },
    ]);
    assert_eq!(plan.bodies[1].ops, expected);
}

#[test]
fn print_function_calls_the_runtime() {
    let program = b::Program {
        declarations: vec![
            function("std.io.print", vec![param("message", b::TypeKind::String)], b::TypeKind::Void, vec![]),
            function("main", vec![], b::TypeKind::Void, vec![]),
        ],
    };
    let plan = plan_program(&program, 8);
    let mut expected = entry();
    expected.extend(vec![
        Op::BlockParam { block: 0, index: 0 },
        Op::DeclareVar { ty: MachineType::Pointer },
        Op::DefVar { var: 0, value: 0 },
        Op::DeclareFunc { name: "rt_print_str".to_string() },
        Op::UseVar { var: 0 },
        Op::Call { func: 0, args: vec![1], has_result: false },
        Op::Return { values: vec![] },
    ]);
    assert_eq!(plan.bodies[0].ops, expected);
    let mut main = entry();
    main.push(Op::Return { values: vec![] });
    assert_eq!(plan.bodies[1].ops, main);
}

#[test]
fn closures_get_trampolines_compiled_first() {
    let closure = b::Expr::Closure {
        mangled_name: "main__closure_0".to_string(),
        params: vec![],
        ret_ty: b::TypeKind::Int,
        body: b::Block { statements: vec![b::Statement::Expr(var("n"))] },
        captures: vec![("n".to_string(), b::TypeKind::Int, false)],
    };
    let program = b::Program {
        declarations: vec![function(
            "main",
            vec![],
            b::TypeKind::Void,
            vec![
                b::Statement::Let { name: b::Ident { inner: "n" }, expr: b::Expr::IntLiteral(1), mutable: false },
                b::Statement::Let { name: b::Ident { inner: "f" }, expr: closure, mutable: false },
            ],
        )],
    };
    let plan = plan_program(&program, 8);
    assert_eq!(plan.declarations[4].name, "main__closure_0__trampoline");
    assert_eq!(plan.declarations[4].linkage, Linkage::Local);
    assert_eq!(plan.declarations[4].params, vec![MachineType::Pointer]);
    assert_eq!(plan.bodies[0].name, "main__closure_0__trampoline");
    let mut trampoline = entry();
    trampoline.extend(vec![
        Op::BlockParam { block: 0, index: 0 },
        Op::Load { ty: MachineType::I64, base: 0, offset: 0 },
        Op::DeclareVar { ty: MachineType::I64 },
        Op::DefVar { var: 0, value: 1 },
        Op::UseVar { var: 0 },
        Op::Return { values: vec![2] },
    ]);
    assert_eq!(plan.bodies[0].ops, trampoline);
    let mut main = entry();
    main.extend(vec![
        Op::Iconst { ty: MachineType::I64, imm: 1 },
        Op::DeclareVarLike { value: 0 },
        Op::DefVar { var: 0, value: 0 },
        Op::DeclareFunc { name: "main__closure_0__trampoline".to_string() },
        Op::FuncAddr { func: 0 },
        Op::CreateSlot { size: 8 },
        Op::UseVar { var: 0 },
        Op::StackStore { value: 2, slot: 0, offset: 0 },
        Op::StackAddr { slot: 0 },
        Op::CreateSlot { size: 16 },
        Op::StackStore { value: 1, slot: 1, offset: 0 },
        Op::StackStore { value: 3, slot: 1, offset: 8 },
        Op::StackAddr { slot: 1 },
        Op::DeclareVarLike { value: 4 },
        Op::DefVar { var: 1, value: 4 },
        Op::Return { values: vec![] },
    ]);
    assert_eq!(plan.bodies[1].ops, main);
}

#[test]
fn loops_jump_back_to_their_header() {
    let program = b::Program {
        declarations: vec![function(
            "main",
            vec![],
            b::TypeKind::Void,
            vec![b::Statement::ForLoop { cond: None, block: b::Block { statements: vec![b::Statement::Break] } }],
        )],
    };
    let plan = plan_program(&program, 8);
    let mut expected = entry();
    expected.extend(vec![
        Op::CreateBlock,
        Op::CreateBlock,
        Op::CreateBlock,
        Op::Jump { block: 1, args: vec![] },
        Op::SwitchToBlock { block: 1 },
        Op::Iconst { ty: MachineType::I64, imm: 1 },
        Op::Brif { cond: 0, then_block: 2, else_block: 3 },
        Op::SwitchToBlock { block: 2 },
        Op::SealBlock { block: 2 },
        Op::Jump { block: 3, args: vec![] },
        Op::SwitchToBlock { block: 3 },
        Op::SealBlock { block: 1 },
        Op::SealBlock { block: 3 },
        Op::Return { values: vec![] },
    ]);
    assert_eq!(plan.bodies[0].ops, expected);
}

#[test]
fn float_literals_are_not_planned() {
    let program = b::Program {
        declarations: vec![function("main", vec![], b::TypeKind::Void, vec![b::Statement::Expr(b::Expr::FloatLiteral("1.0"))])],
    };
    assert!(checked_plan_program(&program, 8).is_none());
}

#[test]
fn string_interpolation_formats_integers() {
    let program = b::Program {
        declarations: vec![function(
            "main",
            vec![],
            b::TypeKind::Void,
            vec![b::Statement::Expr(b::Expr::StringInterpolation(vec![b::Expr::IntLiteral(5)]))],
        )],
    };
    let plan = plan_program(&program, 8);
    let mut expected = entry();
    expected.extend(vec![
        Op::StringData { bytes: vec![0], writable: true },
        Op::Iconst { ty: MachineType::I64, imm: 5 },
        Op::DeclareFunc { name: "rt_int_to_str".to_string() },
        Op::Call { func: 0, args: vec![1], has_result: true },
        Op::DeclareFunc { name: "rt_concat".to_string() },
        Op::Call { func: 1, args: vec![0, 2], has_result: true },
        Op::Return { values: vec![] },
    ]);
    assert_eq!(plan.bodies[0].ops, expected);
}

/// Checks that each call uses only what earlier calls created.
fn uses_only_created(ops: &[Op]) -> bool {
    let (mut values, mut blocks, mut vars, mut slots, mut funcs) = (0usize, 0usize, 0usize, 0usize, 0usize);
    for op in ops {
        let ok = match op {
            Op::AppendBlockParam { block, .. }
            | Op::AppendFunctionParams { block }
            | Op::SwitchToBlock { block }
            | Op::SealBlock { block }
            | Op::BlockParam { block, .. } => *block < blocks,
            Op::DeclareVarLike { value } | Op::CreateSlotLike { value } => *value < values,
            Op::DefVar { var, value } => *var < vars && *value < values,
            Op::UseVar { var } => *var < vars,
            Op::Binary { left, right, .. } => *left < values && *right < values,
            Op::Brif { cond, then_block, else_block } => *cond < values && *then_block < blocks && *else_block < blocks,
            Op::Jump { block, args } => *block < blocks && args.iter().all(|a| *a < values),
            Op::Return { values: vs } => vs.iter().all(|a| *a < values),
            Op::Call { func, args, .. } => *func < funcs && args.iter().all(|a| *a < values),
            Op::CallIndirect { callee, args, .. } => *callee < values && args.iter().all(|a| *a < values),
            Op::FuncAddr { func } => *func < funcs,
            Op::StackStore { value, slot, .. } => *value < values && *slot < slots,
            Op::StackLoadLike { slot, like } => *slot < slots && *like < values,
            Op::StackAddr { slot } => *slot < slots,
            Op::Load { base, .. } => *base < values,
            Op::Store { value, base } => *value < values && *base < values,
            _ => true,
        };
        if !ok {
            return false;
        }
        match op {
            Op::CreateBlock => blocks += 1,
            Op::BlockParam { .. }
            | Op::UseVar { .. }
            | Op::Iconst { .. }
            | Op::Binary { .. }
            | Op::StringData { .. }
            | Op::FuncAddr { .. }
            | Op::StackLoadLike { .. }
            | Op::StackAddr { .. }
            | Op::Load { .. } => values += 1,
            Op::Call { has_result: true, .. } => values += 1,
            Op::CallIndirect { ret: Some(_), .. } => values += 1,
            Op::DeclareVar { .. } | Op::DeclareVarLike { .. } => vars += 1,
            Op::CreateSlot { .. } | Op::CreateSlotLike { .. } => slots += 1,
            Op::DeclareFunc { .. } => funcs += 1,
            _ => {}
        }
    }
    true
}

#[test]
fn plans_use_only_what_they_created() {
    let closure = b::Expr::Closure {
        mangled_name: "main__closure_0".to_string(),
        params: vec![param("k", b::TypeKind::Int)],
        ret_ty: b::TypeKind::Void,
        body: b::Block {
            statements: vec![b::Statement::Assign {
                name: b::Ident { inner: "n" },
                expr: b::Expr::Binary {
                    op: b::BinaryOp::Add,
                    ty: b::TypeKind::Int,
                    left: Box::new(var("n")),
                    right: Box::new(var("k")),
                },
            }],
        },
        captures: vec![("n".to_string(), b::TypeKind::Int, true)],
    };
    let call = b::Expr::Call {
        call: b::Call { callee: "f".to_string(), args: vec![b::Expr::IntLiteral(2)] },
        ty: b::TypeKind::Void,
    };
    let program = b::Program {
        declarations: vec![function(
            "main",
            vec![],
            b::TypeKind::Int,
            vec![
                b::Statement::Let { name: b::Ident { inner: "n" }, expr: b::Expr::IntLiteral(1), mutable: true },
                b::Statement::Let { name: b::Ident { inner: "f" }, expr: closure, mutable: false },
                b::Statement::Expr(call),
                b::Statement::Expr(var("n")),
            ],
        )],
    };
    let plan = plan_program(&program, 8);
    assert_eq!(plan.bodies.len(), 2);
    for body in &plan.bodies {
        assert!(uses_only_created(&body.ops));
    }
    // The closure call reloads the mutably captured variable afterwards.
    assert!(plan.bodies[1].ops.iter().any(|op| matches!(op, Op::StackLoadLike { .. })));
}

#[test]
fn if_with_value_merges_through_a_block_parameter() {
    let cond = b::Expr::Binary {
        op: b::BinaryOp::Eq,
        ty: b::TypeKind::Bool,
        left: Box::new(b::Expr::IntLiteral(1)),
        right: Box::new(b::Expr::IntLiteral(1)),
    };
    let if_expr = b::Expr::If {
        ty: b::TypeKind::Int,
        cond: Box::new(cond),
        then: b::Block { statements: vec![b::Statement::Expr(b::Expr::IntLiteral(10))] },
        else_if_blocks: vec![],
        else_block: Some(b::Block { statements: vec![b::Statement::Expr(b::Expr::IntLiteral(20))] }),
    };
    let program = b::Program {
        declarations: vec![function("main", vec![], b::TypeKind::Int, vec![b::Statement::Expr(if_expr)])],
    };
    let plan = plan_program(&program, 8);
    let mut expected = entry();
    expected.extend(vec![
        Op::Iconst { ty: MachineType::I64, imm: 1 },
        Op::Iconst { ty: MachineType::I64, imm: 1 },
        Op::Binary { inst: IntInst::Icmp(IntCond::Equal), left: 0, right: 1 },
        Op::CreateBlock,
        Op::CreateBlock,
        Op::CreateBlock,
        Op::AppendBlockParam { block: 3, ty: MachineType::I64 },
        Op::Brif { cond: 2, then_block: 1, else_block: 2 },
        Op::SwitchToBlock { block: 1 },
        Op::SealBlock { block: 1 },
        Op::Iconst { ty: MachineType::I64, imm: 10 },
        Op::Jump { block: 3, args: vec![3] },
        Op::SwitchToBlock { block: 2 },
        Op::SealBlock { block: 2 },
        Op::Iconst { ty: MachineType::I64, imm: 20 },
        Op::Jump { block: 3, args: vec![4] },
        Op::SwitchToBlock { block: 3 },
        Op::SealBlock { block: 3 },
        Op::BlockParam { block: 3, index: 0 },
        Op::Return { values: vec![5] },
    ]);
    assert_eq!(plan.bodies[0].ops, expected);
}

#[test]
fn if_with_an_empty_branch_is_not_planned() {
    let if_expr = b::Expr::If {
        ty: b::TypeKind::Void,
        cond: Box::new(b::Expr::IntLiteral(1)),
        then: b::Block { statements: vec![] },
        else_if_blocks: vec![],
        else_block: None,
    };
    let program = b::Program {
        declarations: vec![function("main", vec![], b::TypeKind::Void, vec![b::Statement::Expr(if_expr)])],
    };
    assert!(checked_plan_program(&program, 8).is_none());
}

#[test]
fn mutable_captures_are_written_back_through_their_pointer() {
    let closure = b::Expr::Closure {
        mangled_name: "main__closure_0".to_string(),
        params: vec![],
        ret_ty: b::TypeKind::Void,
        body: b::Block {
            statements: vec![b::Statement::Assign { name: b::Ident { inner: "n" }, expr: b::Expr::IntLiteral(5) }],
        },
        captures: vec![("n".to_string(), b::TypeKind::Int, true)],
    };
    let program = b::Program {
        declarations: vec![function(
            "main",
            vec![],
            b::TypeKind::Void,
            vec![
                b::Statement::Let { name: b::Ident { inner: "n" }, expr: b::Expr::IntLiteral(1), mutable: true },
                b::Statement::Let { name: b::Ident { inner: "f" }, expr: closure, mutable: false },
            ],
        )],
    };
    let plan = plan_program(&program, 8);
    let mut trampoline = entry();
    trampoline.extend(vec![
        Op::BlockParam { block: 0, index: 0 },
        Op::Load { ty: MachineType::Pointer, base: 0, offset: 0 },
        Op::DeclareVar { ty: MachineType::Pointer },
        Op::DefVar { var: 0, value: 1 },
        Op::Load { ty: MachineType::I64, base: 1, offset: 0 },
        Op::DeclareVar { ty: MachineType::I64 },
        Op::DefVar { var: 1, value: 2 },
        Op::Iconst { ty: MachineType::I64, imm: 5 },
        Op::UseVar { var: 0 },
        Op::Store { value: 3, base: 4 },
        Op::DefVar { var: 1, value: 3 },
        Op::Return { values: vec![] },
    ]);
    assert_eq!(plan.bodies[0].ops, trampoline);
    // In `main` the captured variable gets a stack slot of its own, whose
    // address is stored in the environment.
    assert!(plan.bodies[1].ops.contains(&Op::CreateSlotLike { value: 2 }));
}

#[test]
fn break_outside_a_loop_is_not_planned() {
    let program = b::Program {
        declarations: vec![function("main", vec![], b::TypeKind::Void, vec![b::Statement::Break])],
    };
    assert!(!program_is_supported(&program));
    assert!(checked_plan_program(&program, 8).is_none());
    let program = b::Program {
        declarations: vec![function("main", vec![], b::TypeKind::Void, vec![b::Statement::Continue])],
    };
    assert!(checked_plan_program(&program, 8).is_none());
}

#[test]
fn break_inside_a_loop_jumps_to_its_exit() {
    let program = b::Program {
        declarations: vec![function(
            "main",
            vec![],
            b::TypeKind::Void,
            vec![b::Statement::ForLoop { cond: None, block: b::Block { statements: vec![b::Statement::Break] } }],
        )],
    };
    assert!(program_is_supported(&program));
    assert!(checked_plan_program(&program, 8).is_some());
}

#[test]
fn and_and_exp_operators_are_not_planned() {
    for op in [b::BinaryOp::And, b::BinaryOp::Exp] {
        let e = b::Expr::Binary {
            op,
            ty: b::TypeKind::Int,
            left: Box::new(b::Expr::IntLiteral(1)),
            right: Box::new(b::Expr::IntLiteral(2)),
        };
        let program = b::Program {
            declarations: vec![function("main", vec![], b::TypeKind::Void, vec![b::Statement::Expr(e)])],
        };
        assert!(!program_is_supported(&program));
        assert!(checked_plan_program(&program, 8).is_none());
    }
}

#[test]
fn value_function_with_empty_body_is_not_planned() {
    let program = b::Program {
        declarations: vec![function("main", vec![], b::TypeKind::Int, vec![])],
    };
    assert!(!program_is_supported(&program));
    assert!(checked_plan_program(&program, 8).is_none());
}
