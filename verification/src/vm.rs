//! The virtual machine: a fixed-size register file, a return stack, two
//! cached scratch values (the last arithmetic result and the last comparison
//! outcome), the collector, and an in-memory output sink that `Print`
//! appends to. The interpreter is a fetch-decode-execute loop over this
//! state; each opcode's semantics is one verified step function, shared with
//! the JIT's compiled plans.

use vstd::prelude::*;
use vstd::string::StringExecFns;

use crate::error::{RuntimeError, RuntimeErrorTy};
use crate::gc::{AllocId, Gc, HeapModel};
use crate::instruction::{Instruction, InstructionModel};
use crate::value::{
    arith_model, bitnot_model, bitop_model, drop_value_model, eq_model, iclass, string_model,
    uclass, ArithEffect, ArithOp, BitOp, RuntimeValue, ValueModel,
};

verus! {

/// The size of the register file; every register index names a register.
pub const NUM_REGISTERS: usize = 256;

/// One frame of the return stack: where to resume when the callee returns.
#[derive(Clone, Copy, Debug, PartialEq, Eq, Structural)]
pub struct ReturnFrame {
    pub func: u32,
    pub index: usize,
}

/// The virtual machine state. It exclusively owns its register file, return
/// stack and collector; the output sink lives inside it for its lifetime
/// and is drained by the caller.
pub struct Vm {
    pub registers: Vec<RuntimeValue>,
    pub return_stack: Vec<ReturnFrame>,
    pub current_func: u32,
    pub index: usize,
    pub finished_execution: bool,
    pub returning: bool,
    pub prev_op: RuntimeValue,
    pub prev_comp: bool,
    pub gc: Gc,
    pub output: String,
}

/// The mathematical shape of the machine state.
#[verifier::ext_equal]
pub struct VmModel {
    pub registers: Seq<ValueModel>,
    pub return_stack: Seq<ReturnFrame>,
    pub current_func: u32,
    pub index: int,
    pub finished_execution: bool,
    pub returning: bool,
    pub prev_op: ValueModel,
    pub prev_comp: bool,
    pub heap: Seq<Option<HeapModel>>,
    pub output: Seq<char>,
}

impl View for Vm {
    type V = VmModel;

    open spec fn view(&self) -> VmModel {
        VmModel {
            registers: Seq::new(self.registers@.len(), |i: int| self.registers@[i]@),
            return_stack: self.return_stack@,
            current_func: self.current_func,
            index: self.index as int,
            finished_execution: self.finished_execution,
            returning: self.returning,
            prev_op: self.prev_op@,
            prev_comp: self.prev_comp,
            heap: self.gc@,
            output: self.output@,
        }
    }
}

/// The state every machine starts from: all registers absent, everything
/// else empty.
pub open spec fn initial_vm_model() -> VmModel {
    VmModel {
        registers: Seq::new(NUM_REGISTERS as nat, |i: int| ValueModel::NoneType),
        return_stack: Seq::empty(),
        current_func: 0,
        index: 0,
        finished_execution: false,
        returning: false,
        prev_op: ValueModel::NoneType,
        prev_comp: false,
        heap: Seq::empty(),
        output: Seq::empty(),
    }
}

impl Vm {
    /// The register file always holds exactly one value per register index.
    pub open spec fn wf(&self) -> bool {
        self.registers@.len() == NUM_REGISTERS
    }

    /// A fresh machine in the initial state.
    pub fn new() -> (vm: Vm)
        ensures
            vm.wf(),
            vm@ == initial_vm_model(),
    {
        let mut registers: Vec<RuntimeValue> = Vec::new();
        while registers.len() < NUM_REGISTERS
            invariant
                registers@.len() <= NUM_REGISTERS,
                forall|i: int| 0 <= i < registers@.len() ==> registers@[i]@ == ValueModel::NoneType,
            decreases NUM_REGISTERS - registers@.len(),
        {
            registers.push(RuntimeValue::NoneType);
        }
        let vm = Vm {
            registers,
            return_stack: Vec::new(),
            current_func: 0,
            index: 0,
            finished_execution: false,
            returning: false,
            prev_op: RuntimeValue::NoneType,
            prev_comp: false,
            gc: Gc::new(),
            output: String::new(),
        };
        proof {
            assert(vm@ =~= initial_vm_model());
        }
        vm
    }

    /// Hands the output sink's contents out and empties it.
    pub fn take_output(&mut self) -> (r: String)
        ensures
            r@ == old(self)@.output,
            final(self)@ == (VmModel { output: Seq::empty(), ..old(self)@ }),
    {
        let out = self.output.clone();
        self.output = String::new();
        proof {
            assert(self@ =~= (VmModel { output: Seq::empty(), ..old(self)@ }));
        }
        out
    }
}

// ---------------------------------------------------------------------------
// Ordering comparisons. The value model compares for equality; ordering is
// an instruction-level notion over same-tier integer pairs.
// ---------------------------------------------------------------------------

/// The four comparison opcodes' shared shape.
#[derive(Clone, Copy, Debug, PartialEq, Eq, Structural)]
pub enum CmpOp {
    Eq,
    NotEq,
    GreaterThan,
    LessThan,
}

/// The complete specification of ordering: value order for same-tier
/// integer pairs; a null-value failure when either side is `None`; floats
/// and boxed big integers are unsupported gaps; everything else has no
/// order and is an incompatible-types failure.
pub open spec fn ord_model(a: ValueModel, b: ValueModel, gt: bool) -> Result<
    bool,
    RuntimeErrorTy,
> {
    if a is NoneType || b is NoneType {
        Err(RuntimeErrorTy::NullVar)
    } else if uclass(a) is Some && uclass(b) is Some {
        let (ta, va) = uclass(a)->Some_0;
        let (tb, vb) = uclass(b)->Some_0;
        if ta == tb {
            Ok(
                if gt {
                    va > vb
                } else {
                    va < vb
                },
            )
        } else {
            Err(RuntimeErrorTy::IncompatibleTypes)
        }
    } else if iclass(a) is Some && iclass(b) is Some {
        let (ta, va) = iclass(a)->Some_0;
        let (tb, vb) = iclass(b)->Some_0;
        if ta == tb {
            Ok(
                if gt {
                    va > vb
                } else {
                    va < vb
                },
            )
        } else {
            Err(RuntimeErrorTy::IncompatibleTypes)
        }
    } else if (a is F32 && b is F32) || (a is F64 && b is F64) {
        Err(RuntimeErrorTy::UnsupportedOperation)
    } else if (a is GcUint && b is GcUint) || (a is GcInt && b is GcInt) {
        Err(RuntimeErrorTy::UnsupportedOperation)
    } else {
        Err(RuntimeErrorTy::IncompatibleTypes)
    }
}

/// What one comparison opcode leaves in the comparison flag.
pub open spec fn cmp_model(op: CmpOp, a: ValueModel, b: ValueModel, heap: Seq<Option<HeapModel>>) -> Result<
    bool,
    RuntimeErrorTy,
> {
    match op {
        CmpOp::Eq => eq_model(a, b, heap),
        CmpOp::NotEq => match eq_model(a, b, heap) {
            Ok(e) => Ok(!e),
            Err(k) => Err(k),
        },
        CmpOp::GreaterThan => ord_model(a, b, true),
        CmpOp::LessThan => ord_model(a, b, false),
    }
}

// ---------------------------------------------------------------------------
// The step semantics: what each opcode does to the machine.
// ---------------------------------------------------------------------------

/// The outcome of one step: the machine continues at its new index, pauses
/// (a `Yield`, resumable), or fails with the machine untouched.
pub enum StepModel {
    Next(VmModel),
    Pause(VmModel),
    Fail(RuntimeErrorTy),
}

/// A control transfer to an absolute target, which must stay within the
/// addressable range.
pub open spec fn jump_model(m: VmModel, target: int) -> StepModel {
    if target < 0 || target > usize::MAX {
        StepModel::Fail(RuntimeErrorTy::InvalidInstruction)
    } else {
        StepModel::Next(VmModel { index: target, ..m })
    }
}

/// True when the value holds a heap handle naming slot `i`.
pub open spec fn names_slot(v: ValueModel, i: int) -> bool {
    match v {
        ValueModel::GcUint(id) => id.0 == i,
        ValueModel::GcInt(id) => id.0 == i,
        ValueModel::GcString(id) => id.0 == i,
        ValueModel::Pointer(id) => id.0 == i,
        _ => false,
    }
}

/// True when some live root — a register or the cached arithmetic result —
/// names slot `i`.
pub open spec fn root_named(m: VmModel, i: int) -> bool {
    (exists|r: int| 0 <= r < m.registers.len() && names_slot(m.registers[r], i)) || names_slot(
        m.prev_op,
        i,
    )
}

/// The heap after a sweep: every slot no root names is emptied, the rest
/// stay exactly as they were.
pub open spec fn swept_heap(m: VmModel) -> Seq<Option<HeapModel>> {
    Seq::new(
        m.heap.len(),
        |i: int|
            if root_named(m, i) {
                m.heap[i]
            } else {
                None
            },
    )
}

/// What one arithmetic opcode does: the result is cached in `prev_op`, the
/// heap may grow by a concatenation, and the machine moves on.
pub open spec fn arith_step_model(m: VmModel, op: ArithOp, l: u8, r: u8) -> StepModel {
    match arith_model(op, m.registers[l as int], m.registers[r as int], m.heap) {
        ArithEffect::Out(v, h) => StepModel::Next(
            VmModel { prev_op: v, heap: h, index: m.index + 1, ..m },
        ),
        ArithEffect::Fail(k) => StepModel::Fail(k),
    }
}

/// What one comparison opcode does: the outcome lands in the comparison
/// flag.
pub open spec fn cmp_step_model(m: VmModel, op: CmpOp, l: u8, r: u8) -> StepModel {
    match cmp_model(op, m.registers[l as int], m.registers[r as int], m.heap) {
        Ok(b) => StepModel::Next(VmModel { prev_comp: b, index: m.index + 1, ..m }),
        Err(k) => StepModel::Fail(k),
    }
}

/// What releasing a register does: the register becomes the tombstone, and
/// a boxed value's heap slot is released.
pub open spec fn drop_step_model(m: VmModel, reg: u8) -> StepModel {
    match drop_value_model(m.registers[reg as int], m.heap) {
        Ok(h) => StepModel::Next(
            VmModel {
                registers: m.registers.update(reg as int, ValueModel::NoneType),
                heap: h,
                index: m.index + 1,
                ..m
            },
        ),
        Err(k) => StepModel::Fail(k),
    }
}

/// What printing a register does: its rendering is appended to the output
/// sink. Printing an absent register is a null-value failure on every path.
pub open spec fn print_step_model(m: VmModel, reg: u8) -> StepModel {
    if m.registers[reg as int] is NoneType {
        StepModel::Fail(RuntimeErrorTy::NullVar)
    } else {
        match string_model(m.registers[reg as int], m.heap) {
            Ok(s) => StepModel::Next(VmModel { output: m.output + s, index: m.index + 1, ..m }),
            Err(k) => StepModel::Fail(k),
        }
    }
}

/// What a jump does: a conditional one falls through on a clear comparison
/// flag; a taken one moves the instruction pointer by its offset.
pub open spec fn jump_step_model(m: VmModel, off: i32, conditional: bool) -> StepModel {
    if conditional && !m.prev_comp {
        StepModel::Next(VmModel { index: m.index + 1, ..m })
    } else {
        jump_model(m, m.index + off as int)
    }
}

/// What a collection does: the sweep empties every slot no root names.
pub open spec fn collect_step_model(m: VmModel) -> StepModel {
    StepModel::Next(VmModel { heap: swept_heap(m), index: m.index + 1, ..m })
}

/// The complete specification of one fetch-decode-execute step.
pub open spec fn step_model(m: VmModel, inst: InstructionModel) -> StepModel {
    match inst {
        InstructionModel::Load(val, reg) => StepModel::Next(
            VmModel { registers: m.registers.update(reg as int, val), index: m.index + 1, ..m },
        ),
        InstructionModel::Move(src, dst) => StepModel::Next(
            VmModel {
                registers: m.registers.update(dst as int, m.registers[src as int]),
                index: m.index + 1,
                ..m
            },
        ),
        InstructionModel::CompToReg(reg) => StepModel::Next(
            VmModel {
                registers: m.registers.update(reg as int, ValueModel::Bool(m.prev_comp)),
                index: m.index + 1,
                ..m
            },
        ),
        InstructionModel::OpToReg(reg) => StepModel::Next(
            VmModel {
                registers: m.registers.update(reg as int, m.prev_op),
                prev_op: ValueModel::NoneType,
                index: m.index + 1,
                ..m
            },
        ),
        InstructionModel::Drop(reg) => drop_step_model(m, reg),
        InstructionModel::Add(l, r) => arith_step_model(m, ArithOp::Add, l, r),
        InstructionModel::Sub(l, r) => arith_step_model(m, ArithOp::Sub, l, r),
        InstructionModel::Mult(l, r) => arith_step_model(m, ArithOp::Mult, l, r),
        InstructionModel::Div(l, r) => arith_step_model(m, ArithOp::Div, l, r),
        InstructionModel::And(l, r) => match bitop_model(
            BitOp::And,
            m.registers[l as int],
            m.registers[r as int],
        ) {
            Ok(v) => StepModel::Next(VmModel { prev_op: v, index: m.index + 1, ..m }),
            Err(k) => StepModel::Fail(k),
        },
        InstructionModel::Or(l, r) => match bitop_model(
            BitOp::Or,
            m.registers[l as int],
            m.registers[r as int],
        ) {
            Ok(v) => StepModel::Next(VmModel { prev_op: v, index: m.index + 1, ..m }),
            Err(k) => StepModel::Fail(k),
        },
        InstructionModel::Xor(l, r) => match bitop_model(
            BitOp::Xor,
            m.registers[l as int],
            m.registers[r as int],
        ) {
            Ok(v) => StepModel::Next(VmModel { prev_op: v, index: m.index + 1, ..m }),
            Err(k) => StepModel::Fail(k),
        },
        InstructionModel::Not(reg) => match bitnot_model(m.registers[reg as int]) {
            Ok(v) => StepModel::Next(VmModel { prev_op: v, index: m.index + 1, ..m }),
            Err(k) => StepModel::Fail(k),
        },
        InstructionModel::Eq(l, r) => cmp_step_model(m, CmpOp::Eq, l, r),
        InstructionModel::NotEq(l, r) => cmp_step_model(m, CmpOp::NotEq, l, r),
        InstructionModel::GreaterThan(l, r) => cmp_step_model(m, CmpOp::GreaterThan, l, r),
        InstructionModel::LessThan(l, r) => cmp_step_model(m, CmpOp::LessThan, l, r),
        InstructionModel::Print(reg) => print_step_model(m, reg),
        InstructionModel::Jump(off) => jump_step_model(m, off, false),
        InstructionModel::JumpComp(off) => jump_step_model(m, off, true),
        InstructionModel::JumpPoint(_) => StepModel::Next(VmModel { index: m.index + 1, ..m }),
        InstructionModel::Func(f) => StepModel::Next(
            VmModel {
                return_stack: m.return_stack.push(
                    ReturnFrame { func: m.current_func, index: (m.index + 1) as usize },
                ),
                current_func: f,
                index: 0,
                returning: false,
                ..m
            },
        ),
        InstructionModel::Return => {
            if m.return_stack.len() > 0 {
                let frame = m.return_stack.last();
                StepModel::Next(
                    VmModel {
                        return_stack: m.return_stack.drop_last(),
                        current_func: frame.func,
                        index: frame.index as int,
                        returning: true,
                        ..m
                    },
                )
            } else {
                StepModel::Next(
                    VmModel {
                        finished_execution: true,
                        returning: true,
                        index: m.index + 1,
                        ..m
                    },
                )
            }
        },
        InstructionModel::Yield => StepModel::Pause(VmModel { index: m.index + 1, ..m }),
        InstructionModel::Collect => collect_step_model(m),
        InstructionModel::Halt => StepModel::Next(
            VmModel { finished_execution: true, index: m.index + 1, ..m },
        ),
        InstructionModel::NoOp => StepModel::Next(VmModel { index: m.index + 1, ..m }),
        InstructionModel::Illegal => StepModel::Fail(RuntimeErrorTy::InvalidInstruction),
    }
}

// ---------------------------------------------------------------------------
// The executable step, one trampoline per opcode family. The interpreter
// loop and the JIT's compiled plans both run through these.
// ---------------------------------------------------------------------------

/// How a successful step hands control back: keep going, or pause at a
/// `Yield`.
#[derive(Clone, Copy, Debug, PartialEq, Eq, Structural)]
pub enum Flow {
    Continue,
    Yielded,
}

/// The ordering comparison over two values, as `ord_model` specifies it.
fn ord_exec(a: &RuntimeValue, b: &RuntimeValue, gt: bool) -> (r: Result<bool, RuntimeError>)
    ensures
        match ord_model(a@, b@, gt) {
            Ok(v) => r matches Ok(x) && x == v,
            Err(k) => r matches Err(e) && e.ty == k,
        },
{
    let a_none = matches!(a, RuntimeValue::NoneType);
    let b_none = matches!(b, RuntimeValue::NoneType);
    if a_none || b_none {
        return Err(crate::value::pair_error(RuntimeErrorTy::NullVar, a, b, "ordered"));
    }
    match (crate::value::uclass_exec(a), crate::value::uclass_exec(b)) {
        (Some((ta, va)), Some((tb, vb))) => {
            if ta == tb {
                Ok(
                    if gt {
                        va > vb
                    } else {
                        va < vb
                    },
                )
            } else {
                Err(crate::value::pair_error(RuntimeErrorTy::IncompatibleTypes, a, b, "ordered"))
            }
        },
        _ => {
            match (crate::value::iclass_exec(a), crate::value::iclass_exec(b)) {
                (Some((ta, va)), Some((tb, vb))) => {
                    if ta == tb {
                        Ok(
                            if gt {
                                va > vb
                            } else {
                                va < vb
                            },
                        )
                    } else {
                        Err(
                            crate::value::pair_error(
                                RuntimeErrorTy::IncompatibleTypes,
                                a,
                                b,
                                "ordered",
                            ),
                        )
                    }
                },
                _ => {
                    match (a, b) {
                        (RuntimeValue::F32(_), RuntimeValue::F32(_))
                        | (RuntimeValue::F64(_), RuntimeValue::F64(_)) => Err(
                            crate::value::pair_error(
                                RuntimeErrorTy::UnsupportedOperation,
                                a,
                                b,
                                "ordered",
                            ),
                        ),
                        (RuntimeValue::GcUint(_), RuntimeValue::GcUint(_))
                        | (RuntimeValue::GcInt(_), RuntimeValue::GcInt(_)) => Err(
                            crate::value::pair_error(
                                RuntimeErrorTy::UnsupportedOperation,
                                a,
                                b,
                                "ordered",
                            ),
                        ),
                        _ => Err(
                            crate::value::pair_error(
                                RuntimeErrorTy::IncompatibleTypes,
                                a,
                                b,
                                "ordered",
                            ),
                        ),
                    }
                },
            }
        },
    }
}

/// One comparison opcode's computation, as `cmp_model` specifies it.
fn cmp_exec(op: CmpOp, a: &RuntimeValue, b: &RuntimeValue, gc: &Gc) -> (r: Result<
    bool,
    RuntimeError,
>)
    ensures
        match cmp_model(op, a@, b@, gc@) {
            Ok(v) => r matches Ok(x) && x == v,
            Err(k) => r matches Err(e) && e.ty == k,
        },
{
    match op {
        CmpOp::Eq => a.duplicate().is_equal(b.duplicate(), gc),
        CmpOp::NotEq => {
            match a.duplicate().is_equal(b.duplicate(), gc) {
                Ok(x) => Ok(!x),
                Err(e) => Err(e),
            }
        },
        CmpOp::GreaterThan => ord_exec(a, b, true),
        CmpOp::LessThan => ord_exec(a, b, false),
    }
}

/// One arithmetic opcode: computes over the two registers and caches the
/// result in `prev_op`.
fn step_arith(vm: &mut Vm, op: ArithOp, l: u8, r: u8) -> (res: Result<Flow, RuntimeError>)
    requires
        old(vm).wf(),
        old(vm)@.index < usize::MAX,
    ensures
        final(vm).wf(),
        match arith_step_model(old(vm)@, op, l, r) {
            StepModel::Next(m2) => res matches Ok(f) && f == Flow::Continue && final(vm)@ == m2,
            StepModel::Pause(_) => false,
            StepModel::Fail(k) => res matches Err(e) && e.ty == k && final(vm)@ == old(vm)@,
        },
{
    let a = vm.registers[l as usize].duplicate();
    let b = vm.registers[r as usize].duplicate();
    let computed = match op {
        ArithOp::Add => a.add_upflowing(b, &mut vm.gc),
        ArithOp::Sub => a.sub_upflowing(b, &mut vm.gc),
        ArithOp::Mult => a.mult_upflowing(b, &mut vm.gc),
        ArithOp::Div => a.div_upflowing(b, &mut vm.gc),
    };
    match computed {
        Ok(v) => {
            vm.prev_op = v;
            vm.index = vm.index + 1;
            proof {
                assert(vm@ =~= arith_step_model(old(vm)@, op, l, r)->Next_0);
            }
            Ok(Flow::Continue)
        },
        Err(e) => {
            proof {
                assert(vm@ =~= old(vm)@);
            }
            Err(e)
        },
    }
}

/// One comparison opcode: compares the two registers and caches the outcome
/// in the comparison flag.
fn step_cmp(vm: &mut Vm, op: CmpOp, l: u8, r: u8) -> (res: Result<Flow, RuntimeError>)
    requires
        old(vm).wf(),
        old(vm)@.index < usize::MAX,
    ensures
        final(vm).wf(),
        match cmp_step_model(old(vm)@, op, l, r) {
            StepModel::Next(m2) => res matches Ok(f) && f == Flow::Continue && final(vm)@ == m2,
            StepModel::Pause(_) => false,
            StepModel::Fail(k) => res matches Err(e) && e.ty == k && final(vm)@ == old(vm)@,
        },
{
    let outcome = cmp_exec(op, &vm.registers[l as usize], &vm.registers[r as usize], &vm.gc);
    match outcome {
        Ok(b) => {
            vm.prev_comp = b;
            vm.index = vm.index + 1;
            proof {
                assert(vm@ =~= cmp_step_model(old(vm)@, op, l, r)->Next_0);
            }
            Ok(Flow::Continue)
        },
        Err(e) => {
            proof {
                assert(vm@ =~= old(vm)@);
            }
            Err(e)
        },
    }
}

/// The `Drop` opcode: releases the register's value.
fn step_drop(vm: &mut Vm, reg: u8) -> (res: Result<Flow, RuntimeError>)
    requires
        old(vm).wf(),
        old(vm)@.index < usize::MAX,
    ensures
        final(vm).wf(),
        match drop_step_model(old(vm)@, reg) {
            StepModel::Next(m2) => res matches Ok(f) && f == Flow::Continue && final(vm)@ == m2,
            StepModel::Pause(_) => false,
            StepModel::Fail(k) => res matches Err(e) && e.ty == k && final(vm)@ == old(vm)@,
        },
{
    let id_opt = match &vm.registers[reg as usize] {
        RuntimeValue::GcUint(id) => Some(*id),
        RuntimeValue::GcInt(id) => Some(*id),
        RuntimeValue::GcString(id) => Some(*id),
        _ => None,
    };
    if let Some(id) = id_opt {
        match vm.gc.drop(id) {
            Ok(()) => {},
            Err(e) => {
                proof {
                    assert(vm@ =~= old(vm)@);
                }
                return Err(e);
            },
        }
    }
    vm.registers.set(reg as usize, RuntimeValue::NoneType);
    vm.index = vm.index + 1;
    proof {
        assert(vm@ =~= drop_step_model(old(vm)@, reg)->Next_0);
    }
    Ok(Flow::Continue)
}

/// The `Print` opcode: renders the register into the output sink. An
/// absent register is a null-value failure.
fn step_print(vm: &mut Vm, reg: u8) -> (res: Result<Flow, RuntimeError>)
    requires
        old(vm).wf(),
        old(vm)@.index < usize::MAX,
    ensures
        final(vm).wf(),
        match print_step_model(old(vm)@, reg) {
            StepModel::Next(m2) => res matches Ok(f) && f == Flow::Continue && final(vm)@ == m2,
            StepModel::Pause(_) => false,
            StepModel::Fail(k) => res matches Err(e) && e.ty == k && final(vm)@ == old(vm)@,
        },
{
    let absent = matches!(&vm.registers[reg as usize], RuntimeValue::NoneType);
    if absent {
        return Err(
            RuntimeError::new(
                RuntimeErrorTy::NullVar,
                String::from_str("cannot print an absent value"),
            ),
        );
    }
    match vm.registers[reg as usize].to_string(&vm.gc) {
        Ok(s) => {
            vm.output.append(s.as_str());
            vm.index = vm.index + 1;
            proof {
                assert(vm@ =~= print_step_model(old(vm)@, reg)->Next_0);
            }
            Ok(Flow::Continue)
        },
        Err(e) => {
            proof {
                assert(vm@ =~= old(vm)@);
            }
            Err(e)
        },
    }
}

/// A jump opcode: moves the instruction pointer by a relative offset, the
/// conditional form only on a set comparison flag.
pub(crate) fn step_jump(vm: &mut Vm, off: i32, conditional: bool) -> (res: Result<Flow, RuntimeError>)
    requires
        old(vm).wf(),
        old(vm)@.index < usize::MAX,
    ensures
        final(vm).wf(),
        match jump_step_model(old(vm)@, off, conditional) {
            StepModel::Next(m2) => res matches Ok(f) && f == Flow::Continue && final(vm)@ == m2,
            StepModel::Pause(_) => false,
            StepModel::Fail(k) => res matches Err(e) && e.ty == k && final(vm)@ == old(vm)@,
        },
{
    if conditional && !vm.prev_comp {
        vm.index = vm.index + 1;
        proof {
            assert(vm@ =~= jump_step_model(old(vm)@, off, conditional)->Next_0);
        }
        return Ok(Flow::Continue);
    }
    let target: i128 = vm.index as i128 + off as i128;
    if target < 0 || target > usize::MAX as i128 {
        Err(
            RuntimeError::new(
                RuntimeErrorTy::InvalidInstruction,
                String::from_str("the jump leaves the addressable range"),
            ),
        )
    } else {
        vm.index = target as usize;
        proof {
            assert(vm@ =~= jump_step_model(old(vm)@, off, conditional)->Next_0);
        }
        Ok(Flow::Continue)
    }
}

/// Extracts the heap handle a value holds, if any.
fn value_handle(v: &RuntimeValue) -> (r: Option<AllocId>)
    ensures
        match r {
            Some(id) => forall|i: int| names_slot(v@, i) <==> id.0 == i,
            None => forall|i: int| !names_slot(v@, i),
        },
{
    match v {
        RuntimeValue::GcUint(id) => Some(*id),
        RuntimeValue::GcInt(id) => Some(*id),
        RuntimeValue::GcString(id) => Some(*id),
        RuntimeValue::Pointer(id) => Some(*id),
        _ => None,
    }
}

/// The `Collect` opcode: gathers the root handles out of the registers and
/// the cached arithmetic result, then sweeps the heap.
fn step_collect(vm: &mut Vm) -> (res: Result<Flow, RuntimeError>)
    requires
        old(vm).wf(),
        old(vm)@.index < usize::MAX,
    ensures
        final(vm).wf(),
        match collect_step_model(old(vm)@) {
            StepModel::Next(m2) => res matches Ok(f) && f == Flow::Continue && final(vm)@ == m2,
            _ => false,
        },
{
    let mut roots: Vec<AllocId> = Vec::new();
    let mut k: usize = 0;
    while k < vm.registers.len()
        invariant
            *vm == *old(vm),
            vm.wf(),
            k <= vm.registers@.len(),
            forall|i: int|
                crate::gc::roots_name_slot(roots@, i) <==> (exists|rr: int|
                    0 <= rr < k && names_slot(vm@.registers[rr], i)),
        decreases vm.registers@.len() - k,
    {
        let ghost pre_roots = roots@;
        match value_handle(&vm.registers[k]) {
            Some(id) => {
                roots.push(id);
                proof {
                    assert forall|i: int| crate::gc::roots_name_slot(roots@, i) implies (
                    exists|rr: int| 0 <= rr < k + 1 && names_slot(vm@.registers[rr], i)) by {
                        let w = choose|w: int| 0 <= w < roots@.len() && roots@[w].0 == i;
                        if w < pre_roots.len() {
                            assert(crate::gc::roots_name_slot(pre_roots, i));
                        } else {
                            assert(names_slot(vm@.registers[k as int], i));
                        }
                    }
                    assert forall|i: int|
                        (exists|rr: int|
                            0 <= rr < k + 1 && names_slot(vm@.registers[rr], i)) implies crate::gc::roots_name_slot(
                        roots@,
                        i,
                    ) by {
                        let rr = choose|rr: int|
                            0 <= rr < k + 1 && names_slot(vm@.registers[rr], i);
                        if rr < k {
                            assert(crate::gc::roots_name_slot(pre_roots, i));
                            let w = choose|w: int|
                                0 <= w < pre_roots.len() && pre_roots[w].0 == i;
                            assert(roots@[w].0 == i);
                        } else {
                            assert(roots@[roots@.len() - 1].0 == i);
                        }
                    }
                }
            },
            None => {
                proof {
                    assert forall|i: int|
                        (exists|rr: int|
                            0 <= rr < k + 1 && names_slot(vm@.registers[rr], i)) implies crate::gc::roots_name_slot(
                        roots@,
                        i,
                    ) by {
                        let rr = choose|rr: int|
                            0 <= rr < k + 1 && names_slot(vm@.registers[rr], i);
                        assert(rr < k);
                    }
                }
            },
        }
        k = k + 1;
    }
    let ghost pre_roots = roots@;
    match value_handle(&vm.prev_op) {
        Some(id) => {
            roots.push(id);
            proof {
                assert forall|i: int| crate::gc::roots_name_slot(roots@, i) implies root_named(
                    vm@,
                    i,
                ) by {
                    let w = choose|w: int| 0 <= w < roots@.len() && roots@[w].0 == i;
                    if w < pre_roots.len() {
                        assert(crate::gc::roots_name_slot(pre_roots, i));
                    } else {
                        assert(names_slot(vm@.prev_op, i));
                    }
                }
                assert forall|i: int| root_named(vm@, i) implies crate::gc::roots_name_slot(
                    roots@,
                    i,
                ) by {
                    if exists|rr: int| 0 <= rr < vm@.registers.len() && names_slot(
                        vm@.registers[rr],
                        i,
                    ) {
                        assert(crate::gc::roots_name_slot(pre_roots, i));
                        let w = choose|w: int| 0 <= w < pre_roots.len() && pre_roots[w].0 == i;
                        assert(roots@[w].0 == i);
                    } else {
                        assert(names_slot(vm@.prev_op, i));
                        assert(roots@[roots@.len() - 1].0 == i);
                    }
                }
            }
        },
        None => {
            proof {
                assert forall|i: int| root_named(vm@, i) implies crate::gc::roots_name_slot(
                    roots@,
                    i,
                ) by {
                    if exists|rr: int| 0 <= rr < vm@.registers.len() && names_slot(
                        vm@.registers[rr],
                        i,
                    ) {
                    } else {
                        assert(names_slot(vm@.prev_op, i));
                    }
                }
            }
        },
    }
    assert(forall|i: int| crate::gc::roots_name_slot(roots@, i) <==> root_named(old(vm)@, i));
    vm.gc.collect(&roots);
    vm.index = vm.index + 1;
    proof {
        assert(vm@.heap =~= swept_heap(old(vm)@));
        assert(vm@ =~= collect_step_model(old(vm)@)->Next_0);
    }
    Ok(Flow::Continue)
}

/// True of the opcodes `step_group_a` handles: the register and data
/// operations.
pub open spec fn is_group_a(i: InstructionModel) -> bool {
    ||| i matches InstructionModel::Load(_, _)
    ||| i matches InstructionModel::Move(_, _)
    ||| i matches InstructionModel::CompToReg(_)
    ||| i matches InstructionModel::OpToReg(_)
    ||| i matches InstructionModel::Drop(_)
    ||| i matches InstructionModel::Add(_, _)
    ||| i matches InstructionModel::Sub(_, _)
    ||| i matches InstructionModel::Mult(_, _)
    ||| i matches InstructionModel::Div(_, _)
    ||| i matches InstructionModel::And(_, _)
    ||| i matches InstructionModel::Or(_, _)
    ||| i matches InstructionModel::Xor(_, _)
    ||| i matches InstructionModel::Not(_)
}

/// The step for the register and data opcodes.
#[verifier::rlimit(100)]
#[verifier::spinoff_prover]
fn step_group_a(vm: &mut Vm, inst: &Instruction) -> (r: Result<Flow, RuntimeError>)
    requires
        old(vm).wf(),
        old(vm)@.index < usize::MAX,
        is_group_a(inst@),
    ensures
        final(vm).wf(),
        match step_model(old(vm)@, inst@) {
            StepModel::Next(m2) => r matches Ok(f) && f == Flow::Continue && final(vm)@ == m2,
            StepModel::Pause(m2) => r matches Ok(f) && f == Flow::Yielded && final(vm)@ == m2,
            StepModel::Fail(k) => r matches Err(e) && e.ty == k && final(vm)@ == old(vm)@,
        },
{
    match inst {
        Instruction::Load(val, reg) => {
            vm.registers.set(*reg as usize, val.duplicate());
            vm.index = vm.index + 1;
            proof {
                assert(vm@ =~= step_model(old(vm)@, inst@)->Next_0);
            }
            Ok(Flow::Continue)
        },
        Instruction::Move(src, dst) => {
            let v = vm.registers[*src as usize].duplicate();
            vm.registers.set(*dst as usize, v);
            vm.index = vm.index + 1;
            proof {
                assert(vm@ =~= step_model(old(vm)@, inst@)->Next_0);
            }
            Ok(Flow::Continue)
        },
        Instruction::CompToReg(reg) => {
            let b = vm.prev_comp;
            vm.registers.set(*reg as usize, RuntimeValue::Bool(b));
            vm.index = vm.index + 1;
            proof {
                assert(vm@ =~= step_model(old(vm)@, inst@)->Next_0);
            }
            Ok(Flow::Continue)
        },
        Instruction::OpToReg(reg) => {
            let v = vm.prev_op.duplicate();
            vm.prev_op = RuntimeValue::NoneType;
            vm.registers.set(*reg as usize, v);
            vm.index = vm.index + 1;
            proof {
                assert(vm@ =~= step_model(old(vm)@, inst@)->Next_0);
            }
            Ok(Flow::Continue)
        },
        Instruction::Drop(reg) => step_drop(vm, *reg),
        Instruction::Add(l, r) => step_arith(vm, ArithOp::Add, *l, *r),
        Instruction::Sub(l, r) => step_arith(vm, ArithOp::Sub, *l, *r),
        Instruction::Mult(l, r) => step_arith(vm, ArithOp::Mult, *l, *r),
        Instruction::Div(l, r) => step_arith(vm, ArithOp::Div, *l, *r),
        Instruction::And(l, r) => {
            let a = vm.registers[*l as usize].duplicate();
            let b = vm.registers[*r as usize].duplicate();
            match a.bit_and(b, &mut vm.gc) {
                Ok(v) => {
                    vm.prev_op = v;
                    vm.index = vm.index + 1;
                    proof {
                        assert(vm@ =~= step_model(old(vm)@, inst@)->Next_0);
                    }
                    Ok(Flow::Continue)
                },
                Err(e) => {
                    proof {
                        assert(vm@ =~= old(vm)@);
                    }
                    Err(e)
                },
            }
        },
        Instruction::Or(l, r) => {
            let a = vm.registers[*l as usize].duplicate();
            let b = vm.registers[*r as usize].duplicate();
            match a.bit_or(b, &mut vm.gc) {
                Ok(v) => {
                    vm.prev_op = v;
                    vm.index = vm.index + 1;
                    proof {
                        assert(vm@ =~= step_model(old(vm)@, inst@)->Next_0);
                    }
                    Ok(Flow::Continue)
                },
                Err(e) => {
                    proof {
                        assert(vm@ =~= old(vm)@);
                    }
                    Err(e)
                },
            }
        },
        Instruction::Xor(l, r) => {
            let a = vm.registers[*l as usize].duplicate();
            let b = vm.registers[*r as usize].duplicate();
            match a.bit_xor(b, &mut vm.gc) {
                Ok(v) => {
                    vm.prev_op = v;
                    vm.index = vm.index + 1;
                    proof {
                        assert(vm@ =~= step_model(old(vm)@, inst@)->Next_0);
                    }
                    Ok(Flow::Continue)
                },
                Err(e) => {
                    proof {
                        assert(vm@ =~= old(vm)@);
                    }
                    Err(e)
                },
            }
        },
        Instruction::Not(reg) => {
            let a = vm.registers[*reg as usize].duplicate();
            match a.bit_not(&mut vm.gc) {
                Ok(v) => {
                    vm.prev_op = v;
                    vm.index = vm.index + 1;
                    proof {
                        assert(vm@ =~= step_model(old(vm)@, inst@)->Next_0);
                    }
                    Ok(Flow::Continue)
                },
                Err(e) => {
                    proof {
                        assert(vm@ =~= old(vm)@);
                    }
                    Err(e)
                },
            }
        },
        _ => {
            proof {
                assert(false);
            }
            Err(
                RuntimeError::new(
                    RuntimeErrorTy::InvalidInstruction,
                    String::from_str("unreachable"),
                ),
            )
        },
    }
}

/// The step for the comparison and control-flow opcodes.
#[verifier::rlimit(100)]
#[verifier::spinoff_prover]
fn step_group_b(vm: &mut Vm, inst: &Instruction) -> (r: Result<Flow, RuntimeError>)
    requires
        old(vm).wf(),
        old(vm)@.index < usize::MAX,
        !is_group_a(inst@),
    ensures
        final(vm).wf(),
        match step_model(old(vm)@, inst@) {
            StepModel::Next(m2) => r matches Ok(f) && f == Flow::Continue && final(vm)@ == m2,
            StepModel::Pause(m2) => r matches Ok(f) && f == Flow::Yielded && final(vm)@ == m2,
            StepModel::Fail(k) => r matches Err(e) && e.ty == k && final(vm)@ == old(vm)@,
        },
{
    match inst {
        Instruction::Eq(l, r) => step_cmp(vm, CmpOp::Eq, *l, *r),
        Instruction::NotEq(l, r) => step_cmp(vm, CmpOp::NotEq, *l, *r),
        Instruction::GreaterThan(l, r) => step_cmp(vm, CmpOp::GreaterThan, *l, *r),
        Instruction::LessThan(l, r) => step_cmp(vm, CmpOp::LessThan, *l, *r),
        Instruction::Print(reg) => step_print(vm, *reg),
        Instruction::Jump(off) => step_jump(vm, *off, false),
        Instruction::JumpComp(off) => step_jump(vm, *off, true),
        Instruction::JumpPoint(_) => {
            vm.index = vm.index + 1;
            proof {
                assert(vm@ =~= step_model(old(vm)@, inst@)->Next_0);
            }
            Ok(Flow::Continue)
        },
        Instruction::Func(f) => {
            vm.return_stack.push(ReturnFrame { func: vm.current_func, index: vm.index + 1 });
            vm.current_func = *f;
            vm.index = 0;
            vm.returning = false;
            proof {
                assert(vm@ =~= step_model(old(vm)@, inst@)->Next_0);
            }
            Ok(Flow::Continue)
        },
        Instruction::Return => {
            match vm.return_stack.pop() {
                Some(frame) => {
                    vm.current_func = frame.func;
                    vm.index = frame.index;
                    vm.returning = true;
                },
                None => {
                    vm.finished_execution = true;
                    vm.returning = true;
                    vm.index = vm.index + 1;
                },
            }
            proof {
                assert(vm@ =~= step_model(old(vm)@, inst@)->Next_0);
            }
            Ok(Flow::Continue)
        },
        Instruction::Yield => {
            vm.index = vm.index + 1;
            proof {
                assert(vm@ =~= step_model(old(vm)@, inst@)->Pause_0);
            }
            Ok(Flow::Yielded)
        },
        Instruction::Collect => step_collect(vm),
        Instruction::Halt => {
            vm.finished_execution = true;
            vm.index = vm.index + 1;
            proof {
                assert(vm@ =~= step_model(old(vm)@, inst@)->Next_0);
            }
            Ok(Flow::Continue)
        },
        Instruction::NoOp => {
            vm.index = vm.index + 1;
            proof {
                assert(vm@ =~= step_model(old(vm)@, inst@)->Next_0);
            }
            Ok(Flow::Continue)
        },
        Instruction::Illegal => Err(
            RuntimeError::new(
                RuntimeErrorTy::InvalidInstruction,
                String::from_str("the illegal opcode always fails"),
            ),
        ),
        _ => {
            proof {
                assert(false);
            }
            Err(
                RuntimeError::new(
                    RuntimeErrorTy::InvalidInstruction,
                    String::from_str("unreachable"),
                ),
            )
        },
    }
}

/// One fetch-decode-execute step: performs `inst` against the machine,
/// exactly as `step_model` specifies it. On failure the machine is left
/// untouched.
pub fn step(vm: &mut Vm, inst: &Instruction) -> (r: Result<Flow, RuntimeError>)
    requires
        old(vm).wf(),
        old(vm)@.index < usize::MAX,
    ensures
        final(vm).wf(),
        match step_model(old(vm)@, inst@) {
            StepModel::Next(m2) => r matches Ok(f) && f == Flow::Continue && final(vm)@ == m2,
            StepModel::Pause(m2) => r matches Ok(f) && f == Flow::Yielded && final(vm)@ == m2,
            StepModel::Fail(k) => r matches Err(e) && e.ty == k && final(vm)@ == old(vm)@,
        },
{
    match inst {
        Instruction::Load(_, _)
        | Instruction::Move(_, _)
        | Instruction::CompToReg(_)
        | Instruction::OpToReg(_)
        | Instruction::Drop(_)
        | Instruction::Add(_, _)
        | Instruction::Sub(_, _)
        | Instruction::Mult(_, _)
        | Instruction::Div(_, _)
        | Instruction::And(_, _)
        | Instruction::Or(_, _)
        | Instruction::Xor(_, _)
        | Instruction::Not(_) => step_group_a(vm, inst),
        _ => step_group_b(vm, inst),
    }
}

// ---------------------------------------------------------------------------
// The interpreter: a fetch-decode-execute loop over the step semantics.
// ---------------------------------------------------------------------------

/// The models of an instruction vector.
pub open spec fn iview(s: Seq<Instruction>) -> Seq<InstructionModel> {
    s.map_values(|i: Instruction| i@)
}

/// True when execution over `len` instructions can take no further step:
/// the machine finished, or the instruction pointer fell off the stream.
pub open spec fn settled(m: VmModel, len: int) -> bool {
    m.finished_execution || m.index < 0 || m.index >= len
}

/// Where a bounded run ends up: still running when the fuel ran out, done,
/// paused at a `Yield`, or failed (carrying the state the failing step left
/// untouched).
pub enum RunOutcome {
    Running(VmModel),
    Done(VmModel),
    Paused(VmModel),
    Failed(VmModel, RuntimeErrorTy),
}

/// The step semantics iterated `fuel` times from `m`.
pub open spec fn run_model(instrs: Seq<InstructionModel>, m: VmModel, fuel: nat) -> RunOutcome
    decreases fuel,
{
    if settled(m, instrs.len() as int) {
        RunOutcome::Done(m)
    } else if fuel == 0 {
        RunOutcome::Running(m)
    } else {
        match step_model(m, instrs[m.index]) {
            StepModel::Next(m2) => run_model(instrs, m2, (fuel - 1) as nat),
            StepModel::Pause(m2) => RunOutcome::Paused(m2),
            StepModel::Fail(k) => RunOutcome::Failed(m, k),
        }
    }
}

/// True when some number of steps takes the machine from `m0` to `out`.
pub open spec fn run_reaches(
    instrs: Seq<InstructionModel>,
    m0: VmModel,
    out: RunOutcome,
) -> bool {
    exists|fuel: nat| run_model(instrs, m0, fuel) == out
}

/// Running one more step extends a still-running bounded run by exactly one
/// application of the step semantics, and leaves a settled one unchanged.
proof fn lemma_run_extend(instrs: Seq<InstructionModel>, m0: VmModel, n: nat)
    ensures
        match run_model(instrs, m0, n) {
            RunOutcome::Running(m) => run_model(instrs, m0, n + 1) == (match step_model(
                m,
                instrs[m.index],
            ) {
                StepModel::Next(m2) => if settled(m2, instrs.len() as int) {
                    RunOutcome::Done(m2)
                } else {
                    RunOutcome::Running(m2)
                },
                StepModel::Pause(m2) => RunOutcome::Paused(m2),
                StepModel::Fail(k) => RunOutcome::Failed(m, k),
            }),
            RunOutcome::Done(m) => run_model(instrs, m0, n + 1) == RunOutcome::Done(m),
            RunOutcome::Paused(m) => run_model(instrs, m0, n + 1) == RunOutcome::Paused(m),
            RunOutcome::Failed(m, k) => run_model(instrs, m0, n + 1) == RunOutcome::Failed(m, k),
        },
    decreases n,
{
    if !settled(m0, instrs.len() as int) {
        if n == 0 {
            match step_model(m0, instrs[m0.index]) {
                StepModel::Next(m2) => {
                    assert(run_model(instrs, m2, 0) == (if settled(m2, instrs.len() as int) {
                        RunOutcome::Done(m2)
                    } else {
                        RunOutcome::Running(m2)
                    }));
                },
                _ => {},
            }
        } else {
            match step_model(m0, instrs[m0.index]) {
                StepModel::Next(m2) => {
                    lemma_run_extend(instrs, m2, (n - 1) as nat);
                },
                _ => {},
            }
        }
    }
}

/// How a bounded run came back without failing.
#[derive(Clone, Copy, Debug, PartialEq, Eq, Structural)]
pub enum RunState {
    /// The machine finished, or fell off the end of the stream.
    Finished,
    /// A `Yield` handed control back; the machine can resume.
    Yielded,
    /// The step budget ran out first.
    Exhausted,
}

/// Runs the machine over the instruction vector for at most `fuel` steps.
/// The outcome is exactly what the iterated step semantics gives: `Finished`
/// and `Yielded` land on a `Done` or `Paused` run, a failure surfaces the
/// failing step's error with the machine left as that step found it, and
/// `Exhausted` reports the still-running state after exactly `fuel` steps.
#[verifier::rlimit(100)]
#[verifier::spinoff_prover]
pub fn run_with_fuel(instructions: &Vec<Instruction>, vm: &mut Vm, fuel: u64) -> (r: Result<
    RunState,
    RuntimeError,
>)
    requires
        old(vm).wf(),
    ensures
        final(vm).wf(),
        match r {
            Ok(RunState::Finished) => run_reaches(
                iview(instructions@),
                old(vm)@,
                RunOutcome::Done(final(vm)@),
            ),
            Ok(RunState::Yielded) => run_reaches(
                iview(instructions@),
                old(vm)@,
                RunOutcome::Paused(final(vm)@),
            ),
            Ok(RunState::Exhausted) => run_model(iview(instructions@), old(vm)@, fuel as nat)
                == RunOutcome::Running(final(vm)@),
            Err(e) => run_reaches(
                iview(instructions@),
                old(vm)@,
                RunOutcome::Failed(final(vm)@, e.ty),
            ),
        },
{
    let ghost ispec = iview(instructions@);
    let ghost m0 = old(vm)@;
    let mut steps: u64 = 0;
    while steps < fuel && vm.index < instructions.len() && !vm.finished_execution
        invariant
            vm.wf(),
            steps <= fuel,
            m0 == old(vm)@,
            ispec == iview(instructions@),
            ispec.len() == instructions@.len(),
            run_model(ispec, m0, steps as nat) == (if settled(vm@, ispec.len() as int) {
                RunOutcome::Done(vm@)
            } else {
                RunOutcome::Running(vm@)
            }),
        decreases fuel - steps,
    {
        let inst = &instructions[vm.index];
        proof {
            assert(inst@ == ispec[vm@.index]);
            lemma_run_extend(ispec, m0, steps as nat);
        }
        match step(vm, inst) {
            Ok(Flow::Continue) => {
                steps = steps + 1;
            },
            Ok(Flow::Yielded) => {
                proof {
                    assert(run_model(ispec, m0, (steps + 1) as nat) == RunOutcome::Paused(vm@));
                }
                return Ok(RunState::Yielded);
            },
            Err(e) => {
                proof {
                    assert(run_model(ispec, m0, (steps + 1) as nat) == RunOutcome::Failed(
                        vm@,
                        e.ty,
                    ));
                }
                return Err(e);
            },
        }
    }
    if vm.finished_execution || vm.index >= instructions.len() {
        proof {
            assert(run_model(ispec, m0, steps as nat) == RunOutcome::Done(vm@));
        }
        Ok(RunState::Finished)
    } else {
        proof {
            assert(steps == fuel);
            assert(run_model(ispec, m0, fuel as nat) == RunOutcome::Running(vm@));
        }
        Ok(RunState::Exhausted)
    }
}

/// The step budget `interpret` runs under: large enough that exhausting it
/// is out of reach in practice, since every loop here must be bounded.
pub const INTERPRET_FUEL: u64 = 0xffff_ffff_ffff_ffff;

/// Interprets the instruction vector against the machine: repeated
/// fetch-decode-execute until the machine finishes, falls off the end of
/// the stream, pauses at a `Yield` (call again to resume), or fails. A run
/// still going after the full step budget is reported as unsupported.
pub fn interpret(instructions: &Vec<Instruction>, vm: &mut Vm) -> (r: Result<(), RuntimeError>)
    requires
        old(vm).wf(),
    ensures
        final(vm).wf(),
        match r {
            Ok(_) => run_reaches(iview(instructions@), old(vm)@, RunOutcome::Done(final(vm)@))
                || run_reaches(iview(instructions@), old(vm)@, RunOutcome::Paused(final(vm)@)),
            Err(e) => run_reaches(
                iview(instructions@),
                old(vm)@,
                RunOutcome::Failed(final(vm)@, e.ty),
            ) || (e.ty == RuntimeErrorTy::UnsupportedOperation && run_model(
                iview(instructions@),
                old(vm)@,
                INTERPRET_FUEL as nat,
            ) == RunOutcome::Running(final(vm)@)),
        },
{
    match run_with_fuel(instructions, vm, INTERPRET_FUEL) {
        Ok(RunState::Finished) => Ok(()),
        Ok(RunState::Yielded) => Ok(()),
        Ok(RunState::Exhausted) => Err(
            RuntimeError::new(
                RuntimeErrorTy::UnsupportedOperation,
                String::from_str("the execution budget was exhausted"),
            ),
        ),
        Err(e) => Err(e),
    }
}

} // verus!
