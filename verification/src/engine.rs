//! The execution engine: an instruction cursor over a stack of frames, an
//! operand/label stack, and a locals vector, with structured control flow
//! driven by label markers.
//!
//! The semantics is a small-step transition function `step_spec` over the
//! mathematical state `StateV`; the executable engine is proved to follow
//! it step for step. Branching unwinds the operand stack to the targeted
//! label, preserving that label's arity of values; a loop label carries
//! the loop body as its continuation and is re-installed when branched to.

use vstd::prelude::*;

verus! {

broadcast use vstd::std_specs::vec::group_vec_axioms, vstd::seq::group_seq_axioms;

use crate::error::Trap;
use crate::types::{
    block_type_view, clone_instrs, instr_view, instrs_view, ty_view, tys_view, BlockType,
    BlockTypeV, Instr, InstrV, Ty, TyV, Val,
};

/// A label marker on the operand stack (mathematical shape). `arity` is
/// the number of values a branch to this label carries; an `Empty` label
/// resumes after its construct, a `Continuation` label re-enters the loop
/// body it carries.
pub struct LabelV {
    pub arity: nat,
    pub kind: LabelKindV,
}

pub enum LabelKindV {
    Empty,
    Continuation(Seq<InstrV>),
}

/// One operand-stack entry (mathematical shape): a value or a label
/// marker.
pub enum StackItemV {
    Val(Val),
    Label(LabelV),
}

/// One instruction-cursor frame (mathematical shape): an instruction
/// sequence and the index of the next instruction in it.
pub struct FrameV {
    pub body: Seq<InstrV>,
    pub pc: nat,
}

/// The whole machine state the semantics steps over.
pub struct StateV {
    pub frames: Seq<FrameV>,
    pub stack: Seq<StackItemV>,
    pub locals: Seq<Val>,
}

/// The outcome of one step: a successor state, a trap (leaving the state
/// as it was), or completion (the cursor is empty).
pub enum StepResultV {
    Next(StateV),
    Trapped(Trap, StateV),
    Done(StateV),
}

/// A label marker on the operand stack.
pub struct Label {
    pub arity: usize,
    pub kind: LabelKind,
}

pub enum LabelKind {
    Empty,
    Continuation(Vec<Instr>),
}

/// One operand-stack entry: a value or a label marker.
pub enum StackItem {
    Val(Val),
    Label(Label),
}

/// One instruction-cursor frame.
pub struct Frame {
    pub body: Vec<Instr>,
    pub pc: usize,
}

pub open spec fn label_kind_view(k: LabelKind) -> LabelKindV {
    match k {
        LabelKind::Empty => LabelKindV::Empty,
        LabelKind::Continuation(b) => LabelKindV::Continuation(instrs_view(b@)),
    }
}

pub open spec fn label_view(l: Label) -> LabelV {
    LabelV { arity: l.arity as nat, kind: label_kind_view(l.kind) }
}

pub open spec fn item_view(it: StackItem) -> StackItemV {
    match it {
        StackItem::Val(v) => StackItemV::Val(v),
        StackItem::Label(l) => StackItemV::Label(label_view(l)),
    }
}

pub open spec fn stack_view(s: Seq<StackItem>) -> Seq<StackItemV> {
    Seq::new(s.len(), |i: int| item_view(s[i]))
}

pub open spec fn frame_view(f: Frame) -> FrameV {
    FrameV { body: instrs_view(f.body@), pc: f.pc as nat }
}

pub open spec fn frames_view(s: Seq<Frame>) -> Seq<FrameV> {
    Seq::new(s.len(), |i: int| frame_view(s[i]))
}

/// The parameter and result arity a block type denotes, resolved against
/// the type table; `None` when the annotation is not a function type.
pub open spec fn bt_arity(types: Seq<TyV>, bt: BlockTypeV) -> Option<(nat, nat)> {
    match bt {
        BlockTypeV::Empty => Some((0 as nat, 0 as nat)),
        BlockTypeV::ValTy(_) => Some((0 as nat, 1 as nat)),
        BlockTypeV::Index(i) => if i < types.len() {
            match types[i as int] {
                TyV::Func(p, r) => Some((p.len(), r.len())),
                _ => None,
            }
        } else {
            None
        },
    }
}

/// The position of the `n`-th label marker counted from the top of the
/// stack (0 is the innermost), or `None` when fewer than `n + 1` labels
/// are live.
pub open spec fn find_label(stack: Seq<StackItemV>, n: nat) -> Option<int>
    decreases stack.len(),
{
    if stack.len() == 0 {
        None
    } else {
        match stack.last() {
            StackItemV::Label(_) => if n == 0 {
                Some(stack.len() - 1)
            } else {
                find_label(stack.drop_last(), (n - 1) as nat)
            },
            StackItemV::Val(_) => find_label(stack.drop_last(), n),
        }
    }
}

/// Whether the top `k` stack entries are all values.
pub open spec fn top_vals(stack: Seq<StackItemV>, k: nat) -> bool {
    forall|i: int| stack.len() - k <= i < stack.len() ==> stack[i] is Val
}

/// Advance the top frame past the current instruction.
pub open spec fn advance_top(s: StateV) -> StateV {
    let f = s.frames.last();
    StateV {
        frames: s.frames.update(s.frames.len() - 1, FrameV { pc: f.pc + 1, body: f.body }),
        ..s
    }
}

/// Enter a structured construct: push its label marker, advance the
/// parent past the construct, and begin interpreting `body`.
pub open spec fn enter_construct(s: StateV, lab: LabelV, body: Seq<InstrV>) -> StateV {
    let s1 = advance_top(s);
    StateV {
        frames: s1.frames.push(FrameV { body, pc: 0 }),
        stack: s1.stack.push(StackItemV::Label(lab)),
        ..s1
    }
}

/// The two topmost `I32` values, as `(lower, top)`, when present.
pub open spec fn top2_i32(stack: Seq<StackItemV>) -> Option<(i32, i32)> {
    if stack.len() >= 2 && (stack[stack.len() - 1] matches StackItemV::Val(Val::I32(_))) && (
    stack[stack.len() - 2] matches StackItemV::Val(Val::I32(_))) {
        match (stack[stack.len() - 2], stack[stack.len() - 1]) {
            (StackItemV::Val(Val::I32(a)), StackItemV::Val(Val::I32(b))) => Some((a, b)),
            _ => None,
        }
    } else {
        None
    }
}

/// Replace the two topmost values with one result and move on.
pub open spec fn binop_result(s: StateV, c: i32) -> StepResultV {
    StepResultV::Next(
        advance_top(
            StateV {
                stack: s.stack.subrange(0, s.stack.len() - 2).push(StackItemV::Val(Val::I32(c))),
                ..s
            },
        ),
    )
}

/// The branch protocol. The `n`-th enclosing label is the target; its
/// arity of values is saved, the stack is popped down to and including
/// the label, the saved values return, and the cursor drops the inner
/// frames. An `Empty` label resumes after its construct; a
/// `Continuation` label is re-installed and its loop body re-entered.
pub open spec fn branch_spec(s: StateV, n: nat) -> StepResultV {
    match find_label(s.stack, n) {
        None => StepResultV::Trapped(Trap::BranchOutOfRange, s),
        Some(j) => {
            let lab = match s.stack[j] {
                StackItemV::Label(l) => l,
                StackItemV::Val(_) => arbitrary(),
            };
            let k = lab.arity;
            if s.frames.len() < n + 2 {
                StepResultV::Trapped(Trap::TypeMismatch, s)
            } else if s.stack.len() - (j + 1) < k {
                StepResultV::Trapped(Trap::TypeMismatch, s)
            } else if !top_vals(s.stack, k) {
                StepResultV::Trapped(Trap::TypeMismatch, s)
            } else {
                let saved = s.stack.subrange(s.stack.len() - k, s.stack.len() as int);
                let base = s.stack.subrange(0, j);
                let frames2 = s.frames.subrange(0, s.frames.len() - (n + 1));
                match lab.kind {
                    LabelKindV::Empty => StepResultV::Next(
                        StateV { frames: frames2, stack: base + saved, ..s },
                    ),
                    LabelKindV::Continuation(body) => StepResultV::Next(
                        StateV {
                            frames: frames2.push(FrameV { body, pc: 0 }),
                            stack: base.push(StackItemV::Label(lab)) + saved,
                            ..s
                        },
                    ),
                }
            }
        },
    }
}

/// The effect of one instruction on the state.
pub open spec fn step_instr(types: Seq<TyV>, s: StateV, i: InstrV) -> StepResultV {
    match i {
        InstrV::Unreachable => StepResultV::Trapped(Trap::Unreachable, s),
        InstrV::Nop => StepResultV::Next(advance_top(s)),
        InstrV::Drop => if s.stack.len() >= 1 && s.stack.last() is Val {
            StepResultV::Next(advance_top(StateV { stack: s.stack.drop_last(), ..s }))
        } else {
            StepResultV::Trapped(Trap::TypeMismatch, s)
        },
        InstrV::I32Const(c) => StepResultV::Next(
            advance_top(StateV { stack: s.stack.push(StackItemV::Val(Val::I32(c))), ..s }),
        ),
        InstrV::I32Add => match top2_i32(s.stack) {
            Some((a, b)) => binop_result(s, a.wrapping_add(b)),
            None => StepResultV::Trapped(Trap::TypeMismatch, s),
        },
        InstrV::I32Sub => match top2_i32(s.stack) {
            Some((a, b)) => binop_result(s, a.wrapping_sub(b)),
            None => StepResultV::Trapped(Trap::TypeMismatch, s),
        },
        InstrV::I32Mul => match top2_i32(s.stack) {
            Some((a, b)) => binop_result(s, a.wrapping_mul(b)),
            None => StepResultV::Trapped(Trap::TypeMismatch, s),
        },
        InstrV::I32Eq => match top2_i32(s.stack) {
            Some((a, b)) => binop_result(s, if a == b { 1 } else { 0 }),
            None => StepResultV::Trapped(Trap::TypeMismatch, s),
        },
        InstrV::LocalGet(x) => if x < s.locals.len() {
            StepResultV::Next(
                advance_top(
                    StateV { stack: s.stack.push(StackItemV::Val(s.locals[x as int])), ..s },
                ),
            )
        } else {
            StepResultV::Trapped(Trap::LocalIndexOutOfRange, s)
        },
        InstrV::LocalSet(x) => if s.stack.len() >= 1 && s.stack.last() is Val {
            if x < s.locals.len() {
                let v = match s.stack.last() {
                    StackItemV::Val(v) => v,
                    StackItemV::Label(_) => arbitrary(),
                };
                StepResultV::Next(
                    advance_top(
                        StateV {
                            stack: s.stack.drop_last(),
                            locals: s.locals.update(x as int, v),
                            ..s
                        },
                    ),
                )
            } else {
                StepResultV::Trapped(Trap::LocalIndexOutOfRange, s)
            }
        } else {
            StepResultV::Trapped(Trap::TypeMismatch, s)
        },
        InstrV::LocalTee(x) => if s.stack.len() >= 1 && s.stack.last() is Val {
            if x < s.locals.len() {
                let v = match s.stack.last() {
                    StackItemV::Val(v) => v,
                    StackItemV::Label(_) => arbitrary(),
                };
                StepResultV::Next(advance_top(StateV { locals: s.locals.update(x as int, v), ..s }))
            } else {
                StepResultV::Trapped(Trap::LocalIndexOutOfRange, s)
            }
        } else {
            StepResultV::Trapped(Trap::TypeMismatch, s)
        },
        InstrV::Br(n) => branch_spec(s, n as nat),
        InstrV::Block(bt, body) => match bt_arity(types, bt) {
            Some((p, r)) => StepResultV::Next(
                enter_construct(s, LabelV { arity: r, kind: LabelKindV::Empty }, body),
            ),
            None => StepResultV::Trapped(Trap::TypeMismatch, s),
        },
        InstrV::Loop(bt, body) => match bt_arity(types, bt) {
            Some((p, r)) => StepResultV::Next(
                enter_construct(s, LabelV { arity: p, kind: LabelKindV::Continuation(body) }, body),
            ),
            None => StepResultV::Trapped(Trap::TypeMismatch, s),
        },
        InstrV::If(bt, then_body, else_body) => if s.stack.len() >= 1 && (s.stack.last()
            matches StackItemV::Val(Val::I32(_))) {
            match bt_arity(types, bt) {
                Some((p, r)) => {
                    let c = match s.stack.last() {
                        StackItemV::Val(Val::I32(c)) => c,
                        _ => arbitrary(),
                    };
                    StepResultV::Next(
                        enter_construct(
                            StateV { stack: s.stack.drop_last(), ..s },
                            LabelV { arity: r, kind: LabelKindV::Empty },
                            if c != 0 {
                                then_body
                            } else {
                                else_body
                            },
                        ),
                    )
                },
                None => StepResultV::Trapped(Trap::TypeMismatch, s),
            }
        } else {
            StepResultV::Trapped(Trap::TypeMismatch, s)
        },
    }
}

/// One step of the machine. With no frames left the machine is done.
/// When the top frame is exhausted, the innermost construct is left:
/// its label marker is consumed and the values above the marker remain
/// (the implicit fall-through); the root frame simply ends. Otherwise
/// the current instruction takes effect.
pub open spec fn step_spec(types: Seq<TyV>, s: StateV) -> StepResultV {
    if s.frames.len() == 0 {
        StepResultV::Done(s)
    } else {
        let f = s.frames.last();
        if f.pc >= f.body.len() {
            if s.frames.len() == 1 {
                StepResultV::Next(StateV { frames: Seq::empty(), ..s })
            } else {
                match find_label(s.stack, 0) {
                    None => StepResultV::Trapped(Trap::TypeMismatch, s),
                    Some(j) => StepResultV::Next(
                        StateV {
                            frames: s.frames.drop_last(),
                            stack: s.stack.subrange(0, j) + s.stack.subrange(
                                j + 1,
                                s.stack.len() as int,
                            ),
                            ..s
                        },
                    ),
                }
            }
        } else {
            step_instr(types, s, f.body[f.pc as int])
        }
    }
}

/// The machine state reached after `n` steps, absorbing traps and
/// completion.
pub open spec fn steps_spec(types: Seq<TyV>, s: StateV, n: nat) -> StepResultV
    decreases n,
{
    if n == 0 {
        StepResultV::Next(s)
    } else {
        match steps_spec(types, s, (n - 1) as nat) {
            StepResultV::Next(s2) => step_spec(types, s2),
            r => r,
        }
    }
}

/// The state at the start of an invocation: one frame over `body`, an
/// empty operand stack, and the given locals.
pub open spec fn init_state(body: Seq<InstrV>, locals: Seq<Val>) -> StateV {
    StateV { frames: seq![FrameV { body, pc: 0 }], stack: Seq::empty(), locals }
}

/// The values on the stack, in order, with label markers left out.
pub open spec fn stack_vals(stack: Seq<StackItemV>) -> Seq<Val>
    decreases stack.len(),
{
    if stack.len() == 0 {
        Seq::empty()
    } else {
        match stack.last() {
            StackItemV::Val(v) => stack_vals(stack.drop_last()).push(v),
            StackItemV::Label(_) => stack_vals(stack.drop_last()),
        }
    }
}

/// What one call of `Instance::step` reported.
#[derive(Debug, Clone, Copy, PartialEq, Eq, Structural)]
pub enum StepStatus {
    Continue,
    Done,
    Trapped(Trap),
}

/// What a bounded `Instance::run` ended with: the values left on the
/// stack, the trap that aborted the invocation, or the step budget
/// running out with the machine still going.
#[derive(Debug, PartialEq)]
pub enum RunOutcome {
    Values(Vec<Val>),
    Trapped(Trap),
    Exhausted,
}

/// `steps_spec` reached, after `n` steps from `s0`, a finished state
/// whose remaining stack values are `vals` and whose locals are `locals`.
pub open spec fn run_done_at(
    types: Seq<TyV>,
    s0: StateV,
    n: nat,
    vals: Seq<Val>,
    locals: Seq<Val>,
) -> bool {
    match steps_spec(types, s0, n) {
        StepResultV::Next(fs) => fs.frames.len() == 0 && vals == stack_vals(fs.stack) && locals
            == fs.locals,
        _ => false,
    }
}

/// `steps_spec` trapped with `t` after `n` steps from `s0`, with `locals`
/// as the locals at the trap (locals are not rolled back).
pub open spec fn run_trap_at(
    types: Seq<TyV>,
    s0: StateV,
    n: nat,
    t: Trap,
    locals: Seq<Val>,
) -> bool {
    match steps_spec(types, s0, n) {
        StepResultV::Trapped(t2, fs) => t2 == t && locals == fs.locals,
        _ => false,
    }
}

/// How a finished `run` relates to the small-step semantics: values come
/// from a finished state, a trap from a trapping step, and exhaustion
/// leaves the machine mid-run.
/// Some step count within the budget reaches a finished state with these
/// stack values and locals.
pub open spec fn run_values_ok(
    types: Seq<TyV>,
    s0: StateV,
    max_steps: nat,
    vals: Seq<Val>,
    locals: Seq<Val>,
) -> bool {
    exists|n: nat| n <= max_steps && #[trigger] run_done_at(types, s0, n, vals, locals)
}

/// Some step count within the budget traps with `t` and these locals.
pub open spec fn run_trapped_ok(
    types: Seq<TyV>,
    s0: StateV,
    max_steps: nat,
    t: Trap,
    locals: Seq<Val>,
) -> bool {
    exists|n: nat| n <= max_steps && #[trigger] run_trap_at(types, s0, n, t, locals)
}

pub open spec fn run_matches(
    types: Seq<TyV>,
    s0: StateV,
    max_steps: nat,
    r: RunOutcome,
    locals: Seq<Val>,
    end_state: StateV,
) -> bool {
    match r {
        RunOutcome::Values(vals) => run_values_ok(types, s0, max_steps, vals@, locals),
        RunOutcome::Trapped(t) => run_trapped_ok(types, s0, max_steps, t, locals),
        RunOutcome::Exhausted => (steps_spec(types, s0, max_steps) matches StepResultV::Next(s)
            && s.frames.len() > 0 && end_state == s),
    }
}

/// A found label index is in range and names a label marker.
pub proof fn lemma_find_label_some(stack: Seq<StackItemV>, n: nat)
    ensures
        find_label(stack, n) matches Some(j) ==> 0 <= j < stack.len() && stack[j] is Label,
    decreases stack.len(),
{
    if stack.len() != 0 {
        match stack.last() {
            StackItemV::Label(_) => {
                if n != 0 {
                    lemma_find_label_some(stack.drop_last(), (n - 1) as nat);
                }
            },
            StackItemV::Val(_) => {
                lemma_find_label_some(stack.drop_last(), n);
            },
        }
    }
}

/// Everything above the innermost label is a value.
pub proof fn lemma_find_label_zero_top(stack: Seq<StackItemV>)
    ensures
        find_label(stack, 0) matches Some(j) ==> forall|i: int|
            j < i < stack.len() ==> stack[i] is Val,
    decreases stack.len(),
{
    if stack.len() != 0 {
        match stack.last() {
            StackItemV::Label(_) => {},
            StackItemV::Val(_) => {
                lemma_find_label_zero_top(stack.drop_last());
                lemma_find_label_some(stack, 0);
                assert(stack.drop_last() == stack.subrange(0, stack.len() - 1));
                match find_label(stack, 0) {
                    Some(j) => {
                        assert forall|i: int| j < i < stack.len() implies stack[i] is Val by {
                            if i < stack.len() - 1 {
                                assert(stack.subrange(0, stack.len() - 1)[i] == stack[i]);
                                assert(stack.drop_last()[i] is Val);
                            } else {
                                assert(stack[i] == stack.last());
                            }
                        }
                    },
                    None => {},
                }
            },
        }
    }
}

/// Branch target arity: after `Br n`, the top `k` stack values, where
/// `k` is the target label's arity, are exactly the top `k` values from
/// immediately before the branch, in the same order.
pub proof fn lemma_branch_preserves_top_values(types: Seq<TyV>, s: StateV, n: usize)
    requires
        s.frames.len() > 0,
        s.frames.last().pc < s.frames.last().body.len(),
        s.frames.last().body[s.frames.last().pc as int] == InstrV::Br(n),
    ensures
        step_spec(types, s) matches StepResultV::Next(s2) ==> (find_label(s.stack, n as nat)
            matches Some(j) && s.stack[j] matches StackItemV::Label(lab) && s2.stack.len()
            >= lab.arity && s2.stack.subrange(
            s2.stack.len() - lab.arity,
            s2.stack.len() as int,
        ) == s.stack.subrange(s.stack.len() - lab.arity, s.stack.len() as int)),
{
    lemma_find_label_some(s.stack, n as nat);
    match step_spec(types, s) {
        StepResultV::Next(s2) => {
            match find_label(s.stack, n as nat) {
                Some(j) => {
                    let lab = match s.stack[j] {
                        StackItemV::Label(l) => l,
                        StackItemV::Val(_) => arbitrary(),
                    };
                    let k = lab.arity;
                    let saved = s.stack.subrange(s.stack.len() - k, s.stack.len() as int);
                    let base = s.stack.subrange(0, j);
                    match lab.kind {
                        LabelKindV::Empty => {
                            assert((base + saved).subrange(
                                base.len() + saved.len() - k,
                                (base.len() + saved.len()) as int,
                            ) =~= saved);
                        },
                        LabelKindV::Continuation(_) => {
                            let withl = base.push(StackItemV::Label(lab)) + saved;
                            assert(withl.subrange(withl.len() - k, withl.len() as int) =~= saved);
                        },
                    }
                },
                None => {},
            }
        },
        _ => {},
    }
}

/// Block fall-through: when a construct's body completes without
/// branching, the innermost label marker is consumed and every value the
/// body left above that marker stays, in order (for a validated body
/// those are exactly the label's result-arity values), and the construct
/// gives up its cursor frame.
pub proof fn lemma_fall_through_consumes_label(types: Seq<TyV>, s: StateV)
    requires
        s.frames.len() >= 2,
        s.frames.last().pc >= s.frames.last().body.len(),
        find_label(s.stack, 0) is Some,
    ensures
        step_spec(types, s) matches StepResultV::Next(s2) && (find_label(s.stack, 0)
            matches Some(j) ==> (step_spec(types, s) == StepResultV::Next(
            StateV {
                frames: s.frames.drop_last(),
                stack: s.stack.subrange(0, j) + s.stack.subrange(j + 1, s.stack.len() as int),
                locals: s.locals,
            },
        ) && (forall|i: int| j < i < s.stack.len() ==> s.stack[i] is Val))),
{
    lemma_find_label_some(s.stack, 0);
    lemma_find_label_zero_top(s.stack);
}

/// Loop re-entry: branching to an empty-arity loop label re-installs the
/// label and re-enters the loop body at its start. A loop whose body
/// immediately branches to its own label therefore steps back to the very
/// same state, and runs forever.
pub proof fn lemma_loop_reentry_fixed_point(types: Seq<TyV>, s: StateV)
    requires
        s.frames.len() >= 2,
        s.frames.last().pc == 0,
        s.frames.last().body.len() > 0,
        s.frames.last().body[0] == InstrV::Br(0),
        s.stack.len() >= 1,
        s.stack.last() == StackItemV::Label(
            LabelV { arity: 0, kind: LabelKindV::Continuation(s.frames.last().body) },
        ),
    ensures
        step_spec(types, s) == StepResultV::Next(s),
{
    let lab = LabelV { arity: 0, kind: LabelKindV::Continuation(s.frames.last().body) };
    assert(find_label(s.stack, 0) == Some(s.stack.len() - 1));
    let j = s.stack.len() - 1;
    let saved = s.stack.subrange(s.stack.len() - 0, s.stack.len() as int);
    let base = s.stack.subrange(0, j);
    assert(top_vals(s.stack, 0));
    assert(base.push(StackItemV::Label(lab)) + saved =~= s.stack);
    assert(FrameV { body: s.frames.last().body, pc: 0 as nat } == s.frames.last());
    assert(s.frames.subrange(0, s.frames.len() - 1).push(s.frames.last()) =~= s.frames);
    assert(branch_spec(s, 0) == StepResultV::Next(s));
}

/// The execution engine: a type table for resolving block-type indices, a
/// locals vector, and the cursor and operand/label stack of the current
/// invocation.
pub struct Instance {
    pub types: Vec<Ty>,
    pub locals: Vec<Val>,
    pub frames: Vec<Frame>,
    pub stack: Vec<StackItem>,
}

/// Read a label marker's arity and, for a loop label, two owned copies of
/// its continuation body (one for the re-installed marker, one for the
/// new cursor frame).
fn label_parts(it: &StackItem) -> (r: (usize, Option<(Vec<Instr>, Vec<Instr>)>))
    requires
        item_view(*it) is Label,
    ensures
        (match item_view(*it) {
            StackItemV::Label(l) => r.0 as nat == l.arity && (match l.kind {
                LabelKindV::Empty => r.1 is None,
                LabelKindV::Continuation(b) => (r.1 matches Some(p) && instrs_view(p.0@) == b
                    && instrs_view(p.1@) == b),
            }),
            StackItemV::Val(_) => false,
        }),
{
    match it {
        StackItem::Label(l) => {
            let arity = l.arity;
            match &l.kind {
                LabelKind::Empty => (arity, None),
                LabelKind::Continuation(b) => (arity, Some((clone_instrs(b), clone_instrs(b)))),
            }
        },
        StackItem::Val(_) => unreached(),
    }
}

/// Whether a stack entry is a value rather than a label marker.
fn item_is_val(it: &StackItem) -> (b: bool)
    ensures
        b == (item_view(*it) is Val),
{
    match it {
        StackItem::Val(_) => true,
        StackItem::Label(_) => false,
    }
}

/// Look up the `n`-th label from the top of the stack.
fn find_label_idx(stack: &Vec<StackItem>, n: usize) -> (r: Option<usize>)
    ensures
        match r {
            Some(j) => find_label(stack_view(stack@), n as nat) == Some(j as int) && j
                < stack@.len() && stack@[j as int] is Label,
            None => find_label(stack_view(stack@), n as nat) is None,
        },
{
    let ghost sv = stack_view(stack@);
    let mut i: usize = stack.len();
    let mut k: usize = n;
    proof {
        assert(sv.subrange(0, stack@.len() as int) =~= sv);
    }
    loop
        invariant
            i <= stack@.len(),
            sv == stack_view(stack@),
            find_label(sv, n as nat) == find_label(sv.subrange(0, i as int), k as nat),
        decreases i,
    {
        if i == 0 {
            return None;
        }
        i = i - 1;
        proof {
            assert(sv.subrange(0, i + 1).drop_last() =~= sv.subrange(0, i as int));
            assert(sv.subrange(0, i + 1).last() == sv[i as int]);
        }
        match &stack[i] {
            StackItem::Label(_) => {
                if k == 0 {
                    proof {
                        lemma_find_label_some(sv, n as nat);
                    }
                    return Some(i);
                }
                k = k - 1;
            },
            StackItem::Val(_) => {},
        }
    }
}

/// Resolve a block type to its parameter and result arity against the
/// type table.
fn block_arity(types: &Vec<Ty>, bt: &BlockType) -> (r: Option<(usize, usize)>)
    ensures
        match r {
            Some(pq) => bt_arity(tys_view(types@), block_type_view(*bt)) == Some(
                (pq.0 as nat, pq.1 as nat),
            ),
            None => bt_arity(tys_view(types@), block_type_view(*bt)) is None,
        },
{
    match bt {
        BlockType::Empty => Some((0, 0)),
        BlockType::ValTy(_) => Some((0, 1)),
        BlockType::Index(i) => {
            if *i < types.len() {
                proof {
                    assert(tys_view(types@)[*i as int] == ty_view(types@[*i as int]));
                }
                match &types[*i] {
                    Ty::Func(p, q) => Some((p.len(), q.len())),
                    _ => None,
                }
            } else {
                None
            }
        },
    }
}

impl Instance {
    /// The mathematical state of the current invocation.
    pub open spec fn state(self) -> StateV {
        StateV {
            frames: frames_view(self.frames@),
            stack: stack_view(self.stack@),
            locals: self.locals@,
        }
    }

    /// The view of the type table.
    pub open spec fn types_v(self) -> Seq<TyV> {
        tys_view(self.types@)
    }

    pub fn new() -> (r: Instance)
        ensures
            r.types@.len() == 0,
            r.locals@.len() == 0,
            r.state().frames.len() == 0,
            r.state().stack.len() == 0,
    {
        Instance { types: Vec::new(), locals: Vec::new(), frames: Vec::new(), stack: Vec::new() }
    }

    /// Begin an invocation of `instrs`: a fresh operand stack and a single
    /// cursor frame at the start of the sequence. Locals are caller-owned
    /// and keep their values.
    pub fn start(&mut self, instrs: &Vec<Instr>)
        ensures
            final(self).state() == init_state(instrs_view(instrs@), old(self).locals@),
            final(self).types@ == old(self).types@,
            final(self).locals@ == old(self).locals@,
    {
        self.stack = Vec::new();
        self.frames = Vec::new();
        let body = clone_instrs(instrs);
        self.frames.push(Frame { body, pc: 0 });
        proof {
            assert(stack_view(self.stack@) =~= Seq::<StackItemV>::empty());
            assert(frames_view(self.frames@) =~= seq![
                FrameV { body: instrs_view(instrs@), pc: 0 as nat },
            ]);
        }
    }

    /// The index of the next instruction in each live cursor frame,
    /// outermost first.
    pub fn cursor_pos(&self) -> (r: Vec<usize>)
        ensures
            r@.len() == self.state().frames.len(),
            forall|i: int| 0 <= i < r@.len() ==> r@[i] as nat == self.state().frames[i].pc,
    {
        let mut out: Vec<usize> = Vec::new();
        let mut i: usize = 0;
        while i < self.frames.len()
            invariant
                i <= self.frames@.len(),
                out@.len() == i,
                forall|k: int| 0 <= k < i ==> out@[k] as nat == frames_view(self.frames@)[k].pc,
            decreases self.frames@.len() - i,
        {
            out.push(self.frames[i].pc);
            i = i + 1;
        }
        out
    }

    /// The values currently on the operand stack, in order, label markers
    /// left out.
    pub fn stack_values(&self) -> (r: Vec<Val>)
        ensures
            r@ == stack_vals(self.state().stack),
    {
        let ghost sv = stack_view(self.stack@);
        let mut out: Vec<Val> = Vec::new();
        let mut i: usize = 0;
        proof {
            assert(sv.subrange(0, 0) =~= Seq::<StackItemV>::empty());
        }
        while i < self.stack.len()
            invariant
                i <= self.stack@.len(),
                sv == stack_view(self.stack@),
                out@ == stack_vals(sv.subrange(0, i as int)),
            decreases self.stack@.len() - i,
        {
            proof {
                assert(sv.subrange(0, i + 1).drop_last() =~= sv.subrange(0, i as int));
                assert(sv.subrange(0, i + 1).last() == sv[i as int]);
            }
            match &self.stack[i] {
                StackItem::Val(v) => out.push(*v),
                StackItem::Label(_) => {},
            }
            i = i + 1;
        }
        proof {
            assert(sv.subrange(0, self.stack@.len() as int) =~= sv);
        }
        out
    }

    /// Move the top frame one instruction forward.
    fn advance_pc(&mut self)
        requires
            old(self).frames@.len() > 0,
            frames_view(old(self).frames@).last().pc < frames_view(
                old(self).frames@,
            ).last().body.len(),
        ensures
            final(self).state() == advance_top(old(self).state()),
            final(self).types@ == old(self).types@,
    {
        proof {
            assert(frames_view(self.frames@).last() == frame_view(
                self.frames@[self.frames@.len() - 1],
            ));
        }
        let mut f = self.frames.pop().unwrap();
        let body_len = f.body.len();
        proof {
            assert(instrs_view(f.body@).len() == f.body@.len());
            assert(f.pc < body_len);
        }
        f.pc = f.pc + 1;
        self.frames.push(f);
        proof {
            assert(frames_view(self.frames@) =~= advance_top(old(self).state()).frames);
        }
    }

    /// Replace the two topmost values with one `I32` result and move on.
    fn finish_binop(&mut self, c: i32) -> (r: StepStatus)
        requires
            old(self).frames@.len() > 0,
            frames_view(old(self).frames@).last().pc < frames_view(
                old(self).frames@,
            ).last().body.len(),
            old(self).stack@.len() >= 2,
        ensures
            r == StepStatus::Continue,
            StepResultV::Next(final(self).state()) == binop_result(old(self).state(), c),
            final(self).types@ == old(self).types@,
    {
        self.stack.pop();
        self.stack.pop();
        self.stack.push(StackItem::Val(Val::I32(c)));
        self.advance_pc();
        proof {
            let sv0 = stack_view(old(self).stack@);
            assert(stack_view(self.stack@) =~= sv0.subrange(0, sv0.len() - 2).push(
                StackItemV::Val(Val::I32(c)),
            ));
        }
        StepStatus::Continue
    }

    /// One step of execution, following `step_spec` exactly: the engine
    /// advances precisely when the semantics does, and reports the same
    /// trap on the same state otherwise.
    pub fn step(&mut self) -> (r: StepStatus)
        ensures
            final(self).types@ == old(self).types@,
            (match step_spec(old(self).types_v(), old(self).state()) {
                StepResultV::Next(s2) => r == StepStatus::Continue && final(self).state() == s2,
                StepResultV::Trapped(t, _) => r == StepStatus::Trapped(t) && final(self).state()
                    == old(self).state(),
                StepResultV::Done(_) => r == StepStatus::Done && final(self).state() == old(
                    self,
                ).state(),
            }),
    {
        let ghost types0 = self.types_v();
        let ghost s0 = self.state();
        let flen = self.frames.len();
        if flen == 0 {
            return StepStatus::Done;
        }
        let pc = self.frames[flen - 1].pc;
        let blen = self.frames[flen - 1].body.len();
        proof {
            assert(s0.frames.last() == frame_view(self.frames@[flen - 1]));
        }
        if pc >= blen {
            if flen == 1 {
                self.frames.pop();
                proof {
                    assert(frames_view(self.frames@) =~= Seq::<FrameV>::empty());
                }
                return StepStatus::Continue;
            }
            match find_label_idx(&self.stack, 0) {
                None => {
                    return StepStatus::Trapped(Trap::TypeMismatch);
                },
                Some(j) => {
                    self.stack.remove(j);
                    self.frames.pop();
                    proof {
                        assert(frames_view(self.frames@) =~= s0.frames.drop_last());
                        assert(stack_view(self.stack@) =~= s0.stack.subrange(0, j as int)
                            + s0.stack.subrange(j + 1, s0.stack.len() as int));
                    }
                    return StepStatus::Continue;
                },
            }
        }
        let ghost iv = s0.frames.last().body[pc as int];
        proof {
            assert(iv == instr_view(self.frames@[flen - 1].body@[pc as int]));
        }
        let slen = self.stack.len();
        // Reads of the current instruction, and cloned bodies, are taken
        // before any mutation so that a trap leaves the state untouched.
        let instr = &self.frames[flen - 1].body[pc];
        match instr {
            Instr::Unreachable => StepStatus::Trapped(Trap::Unreachable),
            Instr::Nop => {
                self.advance_pc();
                StepStatus::Continue
            },
            Instr::Drop => {
                if slen == 0 {
                    return StepStatus::Trapped(Trap::TypeMismatch);
                }
                match &self.stack[slen - 1] {
                    StackItem::Label(_) => {
                        return StepStatus::Trapped(Trap::TypeMismatch);
                    },
                    StackItem::Val(_) => {},
                }
                self.stack.pop();
                self.advance_pc();
                proof {
                    assert(stack_view(self.stack@) =~= s0.stack.drop_last());
                }
                StepStatus::Continue
            },
            Instr::I32Const(c) => {
                let c = *c;
                self.stack.push(StackItem::Val(Val::I32(c)));
                self.advance_pc();
                proof {
                    assert(stack_view(self.stack@) =~= s0.stack.push(
                        StackItemV::Val(Val::I32(c)),
                    ));
                }
                StepStatus::Continue
            },
            Instr::I32Add | Instr::I32Sub | Instr::I32Mul | Instr::I32Eq => {
                if slen < 2 {
                    return StepStatus::Trapped(Trap::TypeMismatch);
                }
                let b = match &self.stack[slen - 1] {
                    StackItem::Val(Val::I32(b)) => *b,
                    _ => {
                        return StepStatus::Trapped(Trap::TypeMismatch);
                    },
                };
                let a = match &self.stack[slen - 2] {
                    StackItem::Val(Val::I32(a)) => *a,
                    _ => {
                        return StepStatus::Trapped(Trap::TypeMismatch);
                    },
                };
                proof {
                    assert(top2_i32(s0.stack) == Some((a, b)));
                }
                let c = match instr {
                    Instr::I32Add => a.wrapping_add(b),
                    Instr::I32Sub => a.wrapping_sub(b),
                    Instr::I32Mul => a.wrapping_mul(b),
                    _ => if a == b {
                        1
                    } else {
                        0
                    },
                };
                self.finish_binop(c)
            },
            Instr::LocalGet(x) => {
                let x = *x;
                if x >= self.locals.len() {
                    return StepStatus::Trapped(Trap::LocalIndexOutOfRange);
                }
                let v = self.locals[x];
                self.stack.push(StackItem::Val(v));
                self.advance_pc();
                proof {
                    assert(stack_view(self.stack@) =~= s0.stack.push(StackItemV::Val(v)));
                }
                StepStatus::Continue
            },
            Instr::LocalSet(x) => {
                let x = *x;
                if slen == 0 {
                    return StepStatus::Trapped(Trap::TypeMismatch);
                }
                let v = match &self.stack[slen - 1] {
                    StackItem::Val(v) => *v,
                    StackItem::Label(_) => {
                        return StepStatus::Trapped(Trap::TypeMismatch);
                    },
                };
                if x >= self.locals.len() {
                    return StepStatus::Trapped(Trap::LocalIndexOutOfRange);
                }
                self.stack.pop();
                self.locals.set(x, v);
                self.advance_pc();
                proof {
                    assert(stack_view(self.stack@) =~= s0.stack.drop_last());
                }
                StepStatus::Continue
            },
            Instr::LocalTee(x) => {
                let x = *x;
                if slen == 0 {
                    return StepStatus::Trapped(Trap::TypeMismatch);
                }
                let v = match &self.stack[slen - 1] {
                    StackItem::Val(v) => *v,
                    StackItem::Label(_) => {
                        return StepStatus::Trapped(Trap::TypeMismatch);
                    },
                };
                if x >= self.locals.len() {
                    return StepStatus::Trapped(Trap::LocalIndexOutOfRange);
                }
                self.locals.set(x, v);
                self.advance_pc();
                StepStatus::Continue
            },
            Instr::Br(n) => {
                let n = *n;
                self.take_branch(n)
            },
            Instr::Block(bt, body) => {
                let arity = match block_arity(&self.types, bt) {
                    Some(pq) => pq.1,
                    None => {
                        return StepStatus::Trapped(Trap::TypeMismatch);
                    },
                };
                let body2 = clone_instrs(body);
                self.stack.push(StackItem::Label(Label { arity, kind: LabelKind::Empty }));
                self.advance_pc();
                self.frames.push(Frame { body: body2, pc: 0 });
                proof {
                    let ghost lab = LabelV { arity: arity as nat, kind: LabelKindV::Empty };
                    let ghost bodyv = match iv {
                        InstrV::Block(_, b) => b,
                        _ => arbitrary(),
                    };
                    assert(stack_view(self.stack@) =~= s0.stack.push(StackItemV::Label(lab)));
                    assert(frames_view(self.frames@) =~= advance_top(s0).frames.push(
                        FrameV { body: bodyv, pc: 0 as nat },
                    ));
                }
                StepStatus::Continue
            },
            Instr::Loop(bt, body) => {
                let arity = match block_arity(&self.types, bt) {
                    Some(pq) => pq.0,
                    None => {
                        return StepStatus::Trapped(Trap::TypeMismatch);
                    },
                };
                let body_lab = clone_instrs(body);
                let body2 = clone_instrs(body);
                self.stack.push(
                    StackItem::Label(Label { arity, kind: LabelKind::Continuation(body_lab) }),
                );
                self.advance_pc();
                self.frames.push(Frame { body: body2, pc: 0 });
                proof {
                    let ghost bodyv = match iv {
                        InstrV::Loop(_, b) => b,
                        _ => arbitrary(),
                    };
                    let ghost lab = LabelV {
                        arity: arity as nat,
                        kind: LabelKindV::Continuation(bodyv),
                    };
                    assert(stack_view(self.stack@) =~= s0.stack.push(StackItemV::Label(lab)));
                    assert(frames_view(self.frames@) =~= advance_top(s0).frames.push(
                        FrameV { body: bodyv, pc: 0 as nat },
                    ));
                }
                StepStatus::Continue
            },
            Instr::If(bt, then_body, else_body) => {
                if slen == 0 {
                    return StepStatus::Trapped(Trap::TypeMismatch);
                }
                let c = match &self.stack[slen - 1] {
                    StackItem::Val(Val::I32(c)) => *c,
                    _ => {
                        return StepStatus::Trapped(Trap::TypeMismatch);
                    },
                };
                let arity = match block_arity(&self.types, bt) {
                    Some(pq) => pq.1,
                    None => {
                        return StepStatus::Trapped(Trap::TypeMismatch);
                    },
                };
                let body2 = if c != 0 {
                    clone_instrs(then_body)
                } else {
                    clone_instrs(else_body)
                };
                self.stack.pop();
                self.stack.push(StackItem::Label(Label { arity, kind: LabelKind::Empty }));
                self.advance_pc();
                self.frames.push(Frame { body: body2, pc: 0 });
                proof {
                    let ghost lab = LabelV { arity: arity as nat, kind: LabelKindV::Empty };
                    let ghost bodyv = match iv {
                        InstrV::If(_, tb, eb) => if c != 0 {
                            tb
                        } else {
                            eb
                        },
                        _ => arbitrary(),
                    };
                    assert(stack_view(self.stack@) =~= s0.stack.drop_last().push(
                        StackItemV::Label(lab),
                    ));
                    assert(frames_view(self.frames@) =~= advance_top(s0).frames.push(
                        FrameV { body: bodyv, pc: 0 as nat },
                    ));
                }
                StepStatus::Continue
            },
        }
    }

    /// Run `instrs` on a fresh operand stack for at most `max_steps`
    /// steps: repeated `step`s from the initial state, ending with the
    /// remaining stack values, with the trap that aborted the invocation,
    /// or still running when the budget ends (a non-terminating guest
    /// never completes on its own; the budget is the embedder's limit).
    /// Locals keep whatever the executed prefix wrote to them.
    pub fn run(&mut self, instrs: &Vec<Instr>, max_steps: usize) -> (r: RunOutcome)
        ensures
            final(self).types@ == old(self).types@,
            run_matches(
                tys_view(old(self).types@),
                init_state(instrs_view(instrs@), old(self).locals@),
                max_steps as nat,
                r,
                final(self).locals@,
                final(self).state(),
            ),
    {
        self.start(instrs);
        let ghost types0 = tys_view(self.types@);
        let ghost s0 = self.state();
        let mut used: usize = 0;
        #[verifier::loop_isolation(false)]
        while used < max_steps
            invariant
                self.types@ == old(self).types@,
                used <= max_steps,
                steps_spec(types0, s0, used as nat) == StepResultV::Next(self.state()),
            decreases max_steps - used,
        {
            let ghost pre = self.state();
            let status = self.step();
            match status {
                StepStatus::Continue => {
                    proof {
                        assert(steps_spec(types0, s0, (used + 1) as nat) == StepResultV::Next(
                            self.state(),
                        ));
                    }
                    used = used + 1;
                },
                StepStatus::Done => {
                    let vals = self.stack_values();
                    proof {
                        assert(pre.frames.len() == 0);
                        assert(s0 == init_state(instrs_view(instrs@), old(self).locals@));
                        assert(run_done_at(
                            tys_view(old(self).types@),
                            init_state(instrs_view(instrs@), old(self).locals@),
                            used as nat,
                            vals@,
                            self.locals@,
                        ));
                    }
                    let result = RunOutcome::Values(vals);
                    proof {
                        assert(run_values_ok(
                            tys_view(old(self).types@),
                            init_state(instrs_view(instrs@), old(self).locals@),
                            max_steps as nat,
                            vals@,
                            self.locals@,
                        ));
                        assert(run_matches(
                            tys_view(old(self).types@),
                            init_state(instrs_view(instrs@), old(self).locals@),
                            max_steps as nat,
                            result,
                            self.locals@,
                            self.state(),
                        ));
                    }
                    return result;
                },
                StepStatus::Trapped(t) => {
                    proof {
                        assert(steps_spec(types0, s0, (used + 1) as nat) == StepResultV::Trapped(
                            t,
                            pre,
                        ));
                        assert(s0 == init_state(instrs_view(instrs@), old(self).locals@));
                        assert(run_trap_at(
                            tys_view(old(self).types@),
                            init_state(instrs_view(instrs@), old(self).locals@),
                            (used + 1) as nat,
                            t,
                            self.locals@,
                        ));
                    }
                    let result = RunOutcome::Trapped(t);
                    proof {
                        assert(run_trapped_ok(
                            tys_view(old(self).types@),
                            init_state(instrs_view(instrs@), old(self).locals@),
                            max_steps as nat,
                            t,
                            self.locals@,
                        ));
                        assert(run_matches(
                            tys_view(old(self).types@),
                            init_state(instrs_view(instrs@), old(self).locals@),
                            max_steps as nat,
                            result,
                            self.locals@,
                            self.state(),
                        ));
                    }
                    return result;
                },
            }
        }
        // The budget ran out; if the machine happens to be finished
        // already, still report its values.
        if self.frames.len() == 0 {
            let vals = self.stack_values();
            proof {
                assert(frames_view(self.frames@).len() == 0);
                assert(s0 == init_state(instrs_view(instrs@), old(self).locals@));
                assert(run_done_at(
                    tys_view(old(self).types@),
                    init_state(instrs_view(instrs@), old(self).locals@),
                    used as nat,
                    vals@,
                    self.locals@,
                ));
            }
            let result = RunOutcome::Values(vals);
            proof {
                assert(run_values_ok(
                    tys_view(old(self).types@),
                    init_state(instrs_view(instrs@), old(self).locals@),
                    max_steps as nat,
                    vals@,
                    self.locals@,
                ));
                assert(run_matches(
                    tys_view(old(self).types@),
                    init_state(instrs_view(instrs@), old(self).locals@),
                    max_steps as nat,
                    result,
                    self.locals@,
                    self.state(),
                ));
            }
            return result;
        }
        proof {
            assert(frames_view(self.frames@).len() == self.frames@.len());
            assert(run_matches(
                tys_view(old(self).types@),
                init_state(instrs_view(instrs@), old(self).locals@),
                max_steps as nat,
                RunOutcome::Exhausted,
                self.locals@,
                self.state(),
            ));
        }
        RunOutcome::Exhausted
    }

    /// Unwind to the `n`-th enclosing label, as the branch protocol says.
    fn take_branch(&mut self, n: usize) -> (r: StepStatus)
        requires
            old(self).frames@.len() > 0,
        ensures
            final(self).types@ == old(self).types@,
            (match branch_spec(old(self).state(), n as nat) {
                StepResultV::Next(s2) => r == StepStatus::Continue && final(self).state() == s2,
                StepResultV::Trapped(t, _) => r == StepStatus::Trapped(t) && final(self).state()
                    == old(self).state(),
                StepResultV::Done(_) => false,
            }),
    {
        let ghost s0 = self.state();
        let j = match find_label_idx(&self.stack, n) {
            None => {
                return StepStatus::Trapped(Trap::BranchOutOfRange);
            },
            Some(j) => j,
        };
        proof {
            lemma_find_label_some(s0.stack, n as nat);
            assert(s0.stack[j as int] == item_view(self.stack@[j as int]));
        }
        let it = &self.stack[j];
        proof {
            assert(*it == self.stack@[j as int]);
        }
        let parts = label_parts(it);
        let k = parts.0;
        let cont = parts.1;
        if self.frames.len() <= 1 || self.frames.len() - 2 < n {
            return StepStatus::Trapped(Trap::TypeMismatch);
        }
        let slen = self.stack.len();
        if slen - (j + 1) < k {
            return StepStatus::Trapped(Trap::TypeMismatch);
        }
        // Check that the top `k` entries are all values.
        let mut i: usize = slen - k;
        #[verifier::loop_isolation(false)]
        while i < slen
            invariant
                *self == *old(self),
                slen - k <= i <= slen,
                forall|m: int| slen - k <= m < i ==> stack_view(self.stack@)[m] is Val,
            decreases slen - i,
        {
            let it = &self.stack[i];
            proof {
                assert(*it == self.stack@[i as int]);
                assert(stack_view(self.stack@)[i as int] == item_view(self.stack@[i as int]));
            }
            if !item_is_val(it) {
                proof {
                    assert(!(s0.stack[i as int] is Val));
                    assert(!top_vals(s0.stack, k as nat));
                }
                return StepStatus::Trapped(Trap::TypeMismatch);
            }
            i = i + 1;
        }
        proof {
            assert(top_vals(s0.stack, k as nat));
        }
        // Save the branch arguments, unwind, and push them back.
        let mut saved = self.stack.split_off(slen - k);
        self.stack.truncate(j);
        let new_flen = self.frames.len() - (n + 1);
        self.frames.truncate(new_flen);
        match cont {
            None => {
                self.stack.append(&mut saved);
                proof {
                    let base = s0.stack.subrange(0, j as int);
                    let sv = s0.stack.subrange(s0.stack.len() - (k as nat), s0.stack.len() as int);
                    assert(stack_view(self.stack@) =~= base + sv);
                    assert(frames_view(self.frames@) =~= s0.frames.subrange(
                        0,
                        s0.frames.len() - (n + 1),
                    ));
                }
                StepStatus::Continue
            },
            Some((body_lab, body_frame)) => {
                let lab = Label { arity: k, kind: LabelKind::Continuation(body_lab) };
                self.stack.push(StackItem::Label(lab));
                self.stack.append(&mut saved);
                self.frames.push(Frame { body: body_frame, pc: 0 });
                proof {
                    let labv = match s0.stack[j as int] {
                        StackItemV::Label(l) => l,
                        StackItemV::Val(_) => arbitrary(),
                    };
                    let base = s0.stack.subrange(0, j as int);
                    let sv = s0.stack.subrange(s0.stack.len() - (k as nat), s0.stack.len() as int);
                    let bodyv = match labv.kind {
                        LabelKindV::Continuation(b) => b,
                        LabelKindV::Empty => arbitrary(),
                    };
                    assert(stack_view(self.stack@) =~= base.push(StackItemV::Label(labv)) + sv);
                    assert(frames_view(self.frames@) =~= s0.frames.subrange(
                        0,
                        s0.frames.len() - (n + 1),
                    ).push(FrameV { body: bodyv, pc: 0 as nat }));
                }
                StepStatus::Continue
            },
        }
    }
}

} // verus!
