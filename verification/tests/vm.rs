use wasmvm::engine::{Instance, RunOutcome, StepStatus};
use wasmvm::error::Trap;
use wasmvm::types::{block_type, BlockType, Instr, Ty, Val};

const FUEL: usize = 100000;

fn run_values(vm: &mut Instance, instrs: &Vec<Instr>) -> Vec<Val> {
    match vm.run(instrs, FUEL) {
        RunOutcome::Values(vals) => vals,
        other => panic!("expected values, got {:?}", other),
    }
}

#[test]
pub fn test() {
    let mut vm = Instance::new();
    let result = run_values(
        &mut vm,
        &vec![Instr::I32Const(1), Instr::I32Const(1), Instr::I32Add],
    )
    .last()
    .cloned();
    assert_eq!(Some(Val::I32(2)), result);
}

#[test]
pub fn test_block() {
    let mut vm = Instance::new();
    let result = run_values(
        &mut vm,
        &vec![Instr::Block(
            BlockType::ValTy(Ty::I32),
            vec![Instr::I32Const(1), Instr::I32Const(1), Instr::I32Add],
        )],
    )
    .last()
    .cloned();
    assert_eq!(Some(Val::I32(2)), result);
}

#[test]
pub fn test_loop() {
    let mut vm = Instance::new();
    vm.locals.push(Val::I32(0));
    let result = run_values(
        &mut vm,
        &vec![
            Instr::Block(
                BlockType::Empty,
                vec![Instr::Loop(
                    BlockType::Empty,
                    vec![
                        Instr::LocalGet(0),
                        Instr::I32Const(1),
                        Instr::I32Add,
                        Instr::LocalTee(0),
                        Instr::I32Const(20),
                        Instr::I32Eq,
                        Instr::If(
                            BlockType::Empty,
                            vec![Instr::Br(2)],
                            vec![Instr::Br(1)],
                        ),
                    ],
                )],
            ),
            Instr::LocalGet(0),
        ],
    )
    .last()
    .cloned();
    assert_eq!(Some(Val::I32(20)), result);
    assert_eq!(vm.locals[0], Val::I32(20));
}

#[test]
pub fn main_test() {
    let mut vm = Instance::new();
    vm.locals.push(Val::I32(0));
    let vals = run_values(
        &mut vm,
        &vec![Instr::I32Const(1), Instr::I32Const(1), Instr::I32Add],
    );
    assert_eq!(Some(Val::I32(2)), vals.last().cloned());
}

#[test]
pub fn main_test_block() {
    let mut vm = Instance::new();
    vm.locals.push(Val::I32(0));
    let vals = run_values(
        &mut vm,
        &vec![Instr::Block(
            BlockType::ValTy(Ty::I32),
            vec![Instr::I32Const(1), Instr::I32Const(1), Instr::I32Add],
        )],
    );
    assert_eq!(Some(Val::I32(2)), vals.last().cloned());
}

#[test]
fn test_sub_mul_eq() {
    let mut vm = Instance::new();
    let vals = run_values(
        &mut vm,
        &vec![Instr::I32Const(7), Instr::I32Const(2), Instr::I32Sub],
    );
    assert_eq!(vals, vec![Val::I32(5)]);
    let vals = run_values(
        &mut vm,
        &vec![Instr::I32Const(7), Instr::I32Const(2), Instr::I32Mul],
    );
    assert_eq!(vals, vec![Val::I32(14)]);
    let vals = run_values(
        &mut vm,
        &vec![Instr::I32Const(7), Instr::I32Const(7), Instr::I32Eq],
    );
    assert_eq!(vals, vec![Val::I32(1)]);
}

#[test]
fn test_add_wraps() {
    let mut vm = Instance::new();
    let vals = run_values(
        &mut vm,
        &vec![Instr::I32Const(i32::MAX), Instr::I32Const(1), Instr::I32Add],
    );
    assert_eq!(vals, vec![Val::I32(i32::MIN)]);
}

#[test]
fn test_drop_and_nop() {
    let mut vm = Instance::new();
    let vals = run_values(
        &mut vm,
        &vec![Instr::I32Const(1), Instr::Nop, Instr::I32Const(2), Instr::Drop],
    );
    assert_eq!(vals, vec![Val::I32(1)]);
}

#[test]
fn test_branch_carries_block_result() {
    let mut vm = Instance::new();
    let vals = run_values(
        &mut vm,
        &vec![Instr::Block(
            BlockType::ValTy(Ty::I32),
            vec![Instr::I32Const(7), Instr::Br(0), Instr::I32Const(9)],
        )],
    );
    assert_eq!(vals, vec![Val::I32(7)]);
}

#[test]
fn test_trap_unreachable() {
    let mut vm = Instance::new();
    let r = vm.run(&vec![Instr::Unreachable], FUEL);
    assert_eq!(r, RunOutcome::Trapped(Trap::Unreachable));
}

#[test]
fn test_trap_branch_out_of_range() {
    let mut vm = Instance::new();
    let r = vm.run(&vec![Instr::Br(5)], FUEL);
    assert_eq!(r, RunOutcome::Trapped(Trap::BranchOutOfRange));
}

#[test]
fn test_trap_local_index_out_of_range() {
    let mut vm = Instance::new();
    let r = vm.run(&vec![Instr::LocalGet(3)], FUEL);
    assert_eq!(r, RunOutcome::Trapped(Trap::LocalIndexOutOfRange));
}

#[test]
fn test_trap_type_mismatch_on_empty_stack() {
    let mut vm = Instance::new();
    let r = vm.run(&vec![Instr::I32Add], FUEL);
    assert_eq!(r, RunOutcome::Trapped(Trap::TypeMismatch));
}

#[test]
fn test_locals_keep_writes_after_trap() {
    let mut vm = Instance::new();
    vm.locals.push(Val::I32(0));
    let r = vm.run(
        &vec![Instr::I32Const(9), Instr::LocalSet(0), Instr::Unreachable],
        FUEL,
    );
    assert_eq!(r, RunOutcome::Trapped(Trap::Unreachable));
    assert_eq!(vm.locals[0], Val::I32(9));
}

#[test]
fn test_infinite_loop_exhausts_budget() {
    // A loop whose body unconditionally branches to its own label never
    // completes; the step budget runs out instead.
    let mut vm = Instance::new();
    let r = vm.run(
        &vec![Instr::Loop(BlockType::Empty, vec![Instr::Br(0)])],
        1000,
    );
    assert_eq!(r, RunOutcome::Exhausted);
}

#[test]
fn test_loop_reentry_driver() {
    // Step-bounded driver: the cursor returns to the loop-body start on
    // every cycle of an unconditional self-branch.
    let mut vm = Instance::new();
    let program = vec![Instr::Loop(BlockType::Empty, vec![Instr::Br(0)])];
    vm.start(&program);
    // Step once to enter the loop: the cursor now sits at the body start.
    assert_eq!(vm.step(), StepStatus::Continue);
    let at_body_start = vm.cursor_pos();
    assert_eq!(at_body_start, vec![1, 0]);
    for _ in 0..10 {
        // One step takes the branch; the cursor is back at the body start.
        assert_eq!(vm.step(), StepStatus::Continue);
        assert_eq!(vm.cursor_pos(), at_body_start);
    }
}

#[test]
fn test_block_fall_through_consumes_label() {
    // After a block's body completes, no label marker is left: only the
    // result values remain on the stack.
    let mut vm = Instance::new();
    let vals = run_values(
        &mut vm,
        &vec![
            Instr::I32Const(5),
            Instr::Block(BlockType::ValTy(Ty::I32), vec![Instr::I32Const(6)]),
        ],
    );
    assert_eq!(vals, vec![Val::I32(5), Val::I32(6)]);
}

#[test]
fn test_branch_preserves_top_values() {
    // The value on top when the branch is taken is the value the target
    // label receives.
    let mut vm = Instance::new();
    let vals = run_values(
        &mut vm,
        &vec![Instr::Block(
            BlockType::ValTy(Ty::I32),
            vec![
                Instr::I32Const(1),
                Instr::I32Const(2),
                Instr::I32Add,
                Instr::Br(0),
            ],
        )],
    );
    assert_eq!(vals, vec![Val::I32(3)]);
}

#[test]
fn test_if_takes_then_and_else_arms() {
    let mut vm = Instance::new();
    let vals = run_values(
        &mut vm,
        &vec![
            Instr::I32Const(1),
            Instr::If(
                BlockType::ValTy(Ty::I32),
                vec![Instr::I32Const(10)],
                vec![Instr::I32Const(20)],
            ),
        ],
    );
    assert_eq!(vals, vec![Val::I32(10)]);
    let vals = run_values(
        &mut vm,
        &vec![
            Instr::I32Const(0),
            Instr::If(
                BlockType::ValTy(Ty::I32),
                vec![Instr::I32Const(10)],
                vec![Instr::I32Const(20)],
            ),
        ],
    );
    assert_eq!(vals, vec![Val::I32(20)]);
}

#[test]
fn test_block_type_resolves_index() {
    let tys = vec![Ty::Func(vec![Ty::I32], vec![Ty::I32, Ty::I32])];
    let t = block_type(&tys, &BlockType::Index(0));
    match t {
        Ty::Func(params, results) => {
            assert_eq!(params.len(), 1);
            assert_eq!(results.len(), 2);
        }
        other => panic!("expected a function type, got {:?}", other),
    }
    let t2 = block_type(&tys, &BlockType::Empty);
    assert_eq!(t2.func_tys().0.len(), 0);
    assert_eq!(t2.func_tys().1.len(), 0);
}
