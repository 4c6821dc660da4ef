//! The JIT compiler's verified core: lowering an instruction vector into a
//! directly runnable plan of trampoline calls. No value, arithmetic or heap
//! semantics lives here — every opcode in the plan calls the same verified
//! step functions the interpreter uses, and only control flow (resolved
//! jumps, the success tail) belongs to the plan itself.
//!
//! Jump resolution walks the instructions once. A backward jump must find
//! an already-seen jump point at exactly its target distance, and binds to
//! it; a forward jump registers a deferred label that a later jump point at
//! the matching position consumes. A backward jump with no point to land
//! on, and any label or point still unconsumed at the end ("leftover
//! loops"), are compile errors: a plan is never finalized with a dangling
//! jump.

use vstd::prelude::*;
use vstd::string::StringExecFns;

use crate::error::{RuntimeError, RuntimeErrorTy};
use crate::instruction::{Instruction, InstructionModel};
use crate::vm::{
    iview, jump_step_model, run_model, step, step_jump, step_model, Flow, RunOutcome, RunState,
    StepModel, Vm, VmModel,
};

verus! {

/// One op of a compiled plan: a trampoline call for a straight-line
/// instruction, a resolved branch, or a jump point's landing mark.
#[derive(Debug)]
pub enum JitOp {
    Invoke(Instruction),
    Branch { conditional: bool, offset: i32, target: Option<usize> },
    Mark,
}

/// The mathematical shape of a plan op. An unresolved branch target is
/// `None`; a finalized plan has none.
pub enum JitOpModel {
    Invoke(InstructionModel),
    Branch { conditional: bool, offset: i32, target: Option<int> },
    Mark,
}

impl View for JitOp {
    type V = JitOpModel;

    open spec fn view(&self) -> JitOpModel {
        match self {
            JitOp::Invoke(i) => JitOpModel::Invoke(i@),
            JitOp::Branch { conditional, offset, target } => JitOpModel::Branch {
                conditional: *conditional,
                offset: *offset,
                target: match target {
                    Some(t) => Some(*t as int),
                    None => None,
                },
            },
            JitOp::Mark => JitOpModel::Mark,
        }
    }
}

/// The models of a plan.
pub open spec fn jview(s: Seq<JitOp>) -> Seq<JitOpModel> {
    s.map_values(|o: JitOp| o@)
}

/// The back-target positions as mathematical integers.
pub open spec fn bview(s: Seq<usize>) -> Seq<int> {
    s.map_values(|b: usize| b as int)
}

/// True when some deferred label's origin is `j`.
pub open spec fn fronts_names(fronts: Seq<(usize, i32)>, j: int) -> bool {
    exists|k: int| 0 <= k < fronts.len() && (#[trigger] fronts[k]).0 == j
}

/// The deferred labels as mathematical integer pairs.
pub open spec fn fview(s: Seq<(usize, i32)>) -> Seq<(int, int)> {
    s.map_values(|p: (usize, i32)| (p.0 as int, p.1 as int))
}

/// The resolution bookkeeping: the plan built so far, the deferred forward
/// labels as (origin, offset) pairs, the positions of jump points available
/// to backward jumps, and whether resolution has already failed.
pub struct ResolveState {
    pub ops: Seq<JitOpModel>,
    pub fronts: Seq<(int, int)>,
    pub backs: Seq<int>,
    pub failed: bool,
}

/// The position of the first entry equal to `t`, or -1.
pub open spec fn find_back(backs: Seq<int>, t: int) -> int
    decreases backs.len(),
{
    if backs.len() == 0 {
        -1
    } else if backs[0] == t {
        0
    } else {
        let r = find_back(backs.drop_first(), t);
        if r == -1 {
            -1
        } else {
            r + 1
        }
    }
}

/// The position of the first deferred label whose origin plus offset is
/// `p`, or -1.
pub open spec fn find_front(fronts: Seq<(int, int)>, p: int) -> int
    decreases fronts.len(),
{
    if fronts.len() == 0 {
        -1
    } else if fronts[0].0 + fronts[0].1 == p {
        0
    } else {
        let r = find_front(fronts.drop_first(), p);
        if r == -1 {
            -1
        } else {
            r + 1
        }
    }
}

/// How one jump is resolved at position `ptr`: a backward one binds to the
/// first available point at exactly `ptr + off` or fails resolution; a
/// forward one defers.
pub open spec fn resolve_jump(st: ResolveState, conditional: bool, off: i32, ptr: int) -> ResolveState {
    if off < 0 {
        let k = find_back(st.backs, ptr + off as int);
        if k == -1 {
            ResolveState { failed: true, ..st }
        } else {
            ResolveState {
                ops: st.ops.push(
                    JitOpModel::Branch { conditional, offset: off, target: Some(st.backs[k]) },
                ),
                backs: st.backs.remove(k),
                ..st
            }
        }
    } else {
        ResolveState {
            ops: st.ops.push(JitOpModel::Branch { conditional, offset: off, target: None }),
            fronts: st.fronts.push((ptr, off as int)),
            ..st
        }
    }
}

/// How one jump point is resolved at position `ptr`: it binds the first
/// deferred label aimed exactly here, or else stands as a backward target.
pub open spec fn resolve_point(st: ResolveState, ptr: int) -> ResolveState {
    let k = find_front(st.fronts, ptr);
    if k == -1 {
        ResolveState { ops: st.ops.push(JitOpModel::Mark), backs: st.backs.push(ptr), ..st }
    } else {
        let origin = st.fronts[k].0;
        let patched = match st.ops[origin] {
            JitOpModel::Branch { conditional, offset, .. } => JitOpModel::Branch {
                conditional,
                offset,
                target: Some(ptr),
            },
            o => o,
        };
        ResolveState {
            ops: st.ops.update(origin, patched).push(JitOpModel::Mark),
            fronts: st.fronts.remove(k),
            ..st
        }
    }
}

/// What processing one instruction at position `ptr` does to the
/// bookkeeping. A failed resolution stays failed.
pub open spec fn resolve_step(st: ResolveState, inst: InstructionModel, ptr: int) -> ResolveState {
    if st.failed {
        st
    } else {
        match inst {
            InstructionModel::Jump(off) => resolve_jump(st, false, off, ptr),
            InstructionModel::JumpComp(off) => resolve_jump(st, true, off, ptr),
            InstructionModel::JumpPoint(_) => resolve_point(st, ptr),
            _ => ResolveState { ops: st.ops.push(JitOpModel::Invoke(inst)), ..st },
        }
    }
}

/// The bookkeeping after the first `k` instructions.
pub open spec fn resolve_fold(instrs: Seq<InstructionModel>, k: int) -> ResolveState
    decreases k,
{
    if k <= 0 {
        ResolveState {
            ops: Seq::empty(),
            fronts: Seq::empty(),
            backs: Seq::empty(),
            failed: false,
        }
    } else {
        resolve_step(resolve_fold(instrs, k - 1), instrs[k - 1], k - 1)
    }
}

/// Law: an instruction vector compiles exactly when its jumps resolve — no
/// backward jump misses its point, and no deferred label or unconsumed
/// point is left over at the end.
pub open spec fn resolves(instrs: Seq<InstructionModel>) -> bool {
    let st = resolve_fold(instrs, instrs.len() as int);
    !st.failed && st.fronts.len() == 0 && st.backs.len() == 0
}

/// The relative offset of a jump instruction, and nothing for any other.
pub open spec fn jump_offset(i: InstructionModel) -> Option<int> {
    match i {
        InstructionModel::Jump(off) => Some(off as int),
        InstructionModel::JumpComp(off) => Some(off as int),
        _ => None,
    }
}

/// True when the instruction at `i` is a jump aimed at position `p`.
pub open spec fn jump_targets(instrs: Seq<InstructionModel>, i: int, p: int) -> bool {
    &&& 0 <= i < instrs.len()
    &&& jump_offset(instrs[i]) is Some
    &&& i + jump_offset(instrs[i])->Some_0 == p
}

/// A balanced instruction stream: every jump's offset names a jump point
/// inside the stream (an earlier one for a backward offset, a later one for
/// a forward offset), and every jump point is aimed at by exactly one jump.
pub open spec fn balanced(instrs: Seq<InstructionModel>) -> bool {
    &&& forall|i: int|
        0 <= i < instrs.len() && jump_offset(#[trigger] instrs[i]) is Some ==> {
            let p = i + jump_offset(instrs[i])->Some_0;
            0 <= p < instrs.len() && instrs[p] is JumpPoint
        }
    &&& forall|p: int|
        0 <= p < instrs.len() && (#[trigger] instrs[p]) is JumpPoint ==> exists|i: int|
            #[trigger] jump_targets(instrs, i, p)
    &&& forall|p: int, i1: int, i2: int|
        #[trigger] jump_targets(instrs, i1, p) && #[trigger] jump_targets(instrs, i2, p) ==> i1
            == i2
}

/// A pending forward label after `k` instructions: a forward jump already
/// seen, aimed at or past `k`.
spec fn front_entry_ok(instrs: Seq<InstructionModel>, k: int, e: (int, int)) -> bool {
    &&& 0 <= e.0 < k
    &&& jump_offset(instrs[e.0]) == Some(e.1)
    &&& e.1 >= 0
    &&& e.0 + e.1 >= k
}

/// Every forward jump seen so far whose point has not yet arrived has its
/// label on file.
spec fn fronts_complete(instrs: Seq<InstructionModel>, k: int, fronts: Seq<(int, int)>) -> bool {
    forall|i: int|
        (0 <= i < k && jump_offset(#[trigger] instrs[i]) is Some && jump_offset(
            instrs[i],
        )->Some_0 >= 0 && i + jump_offset(instrs[i])->Some_0 >= k) ==> fronts.contains(
            (i, jump_offset(instrs[i])->Some_0),
        )
}

/// An available backward target after `k` instructions: a jump point
/// already seen, whose one aiming jump has not arrived yet.
spec fn back_entry_ok(instrs: Seq<InstructionModel>, k: int, p: int) -> bool {
    &&& 0 <= p < k
    &&& instrs[p] is JumpPoint
    &&& forall|i: int| #[trigger] jump_targets(instrs, i, p) ==> i >= k
}

/// Every jump point seen so far whose aiming jump is still to come stands
/// as an available backward target.
spec fn backs_complete(instrs: Seq<InstructionModel>, k: int, backs: Seq<int>) -> bool {
    forall|p: int, i: int|
        0 <= p < k && #[trigger] jump_targets(instrs, i, p) && i >= k ==> backs.contains(p)
}

/// What the resolution bookkeeping looks like after `k` instructions of a
/// balanced stream: it has not failed, the deferred labels are exactly the
/// forward jumps still waiting for their points, and the available targets
/// are exactly the points still waiting for their backward jumps, each
/// recorded once.
spec fn fold_inv(instrs: Seq<InstructionModel>, k: int) -> bool {
    let st = resolve_fold(instrs, k);
    &&& !st.failed
    &&& forall|j: int|
        0 <= j < st.fronts.len() ==> front_entry_ok(instrs, k, #[trigger] st.fronts[j])
    &&& fronts_complete(instrs, k, st.fronts)
    &&& forall|j1: int, j2: int|
        0 <= j1 < j2 < st.fronts.len() ==> (#[trigger] st.fronts[j1]).0 != (
        #[trigger] st.fronts[j2]).0
    &&& forall|j: int| 0 <= j < st.backs.len() ==> back_entry_ok(instrs, k, #[trigger] st.backs[j])
    &&& backs_complete(instrs, k, st.backs)
    &&& forall|j1: int, j2: int|
        0 <= j1 < j2 < st.backs.len() ==> (#[trigger] st.backs[j1]) != (#[trigger] st.backs[j2])
}

/// `find_back` finds the first match when one exists and -1 otherwise.
proof fn lemma_find_back_char(backs: Seq<int>, t: int)
    ensures
        ({
            let f = find_back(backs, t);
            &&& (f == -1 ==> forall|j: int| 0 <= j < backs.len() ==> backs[j] != t)
            &&& (f != -1 ==> 0 <= f < backs.len() && backs[f] == t && (forall|j: int|
                0 <= j < f ==> backs[j] != t))
        }),
    decreases backs.len(),
{
    if backs.len() > 0 && backs[0] != t {
        lemma_find_back_char(backs.drop_first(), t);
        let tail = backs.drop_first();
        let r = find_back(tail, t);
        if r == -1 {
            assert forall|j: int| 0 <= j < backs.len() implies backs[j] != t by {
                if j >= 1 {
                    assert(tail[j - 1] != t);
                }
            }
        } else {
            assert(backs[r + 1] == tail[r]);
            assert forall|j: int| 0 <= j < r + 1 implies backs[j] != t by {
                if j >= 1 {
                    assert(tail[j - 1] != t);
                }
            }
        }
    }
}

/// `find_front` finds the first aimed label when one exists and -1
/// otherwise.
proof fn lemma_find_front_char(fronts: Seq<(int, int)>, p: int)
    ensures
        ({
            let f = find_front(fronts, p);
            &&& (f == -1 ==> forall|j: int|
                0 <= j < fronts.len() ==> fronts[j].0 + fronts[j].1 != p)
            &&& (f != -1 ==> 0 <= f < fronts.len() && fronts[f].0 + fronts[f].1 == p && (
            forall|j: int| 0 <= j < f ==> fronts[j].0 + fronts[j].1 != p))
        }),
    decreases fronts.len(),
{
    if fronts.len() > 0 && fronts[0].0 + fronts[0].1 != p {
        lemma_find_front_char(fronts.drop_first(), p);
        let tail = fronts.drop_first();
        let r = find_front(tail, p);
        if r == -1 {
            assert forall|j: int| 0 <= j < fronts.len() implies fronts[j].0 + fronts[j].1 != p by {
                if j >= 1 {
                    assert(tail[j - 1] == fronts[j]);
                }
            }
        } else {
            assert(fronts[r + 1] == tail[r]);
            assert forall|j: int| 0 <= j < r + 1 implies fronts[j].0 + fronts[j].1 != p by {
                if j >= 1 {
                    assert(tail[j - 1] == fronts[j]);
                }
            }
        }
    }
}

/// Finds the first unconsumed jump point at exactly `want`, scanning like
/// the resolution spec does.
fn find_back_exec(backs: &Vec<usize>, want: i128) -> (r: Option<usize>)
    ensures
        ({
            let f = find_back(bview(backs@), want as int);
            match r {
                Some(k) => f == k as int && k < backs@.len(),
                None => f == -1,
            }
        }),
{
    let ghost bs = bview(backs@);
    proof {
        lemma_find_back_char(bs, want as int);
    }
    let mut k: usize = 0;
    while k < backs.len()
        invariant
            k <= backs@.len(),
            bs == bview(backs@),
            forall|j: int| 0 <= j < k ==> bs[j] != want as int,
        decreases backs@.len() - k,
    {
        if backs[k] as i128 == want {
            proof {
                assert(bs[k as int] == want as int);
                lemma_find_back_char(bs, want as int);
                let f = find_back(bs, want as int);
                if f == -1 {
                    assert(bs[k as int] != want as int);
                }
                if f < k as int {
                    assert(bs[f] != want as int);
                    assert(bs[f] == want as int);
                }
                if f > k as int {
                    assert(bs[k as int] != want as int);
                }
                assert(f == k as int);
            }
            return Some(k);
        }
        k = k + 1;
    }
    None
}

/// Finds the first deferred label aimed at `want`, scanning like the
/// resolution spec does.
fn find_front_exec(fronts: &Vec<(usize, i32)>, want: i128) -> (r: Option<usize>)
    ensures
        ({
            let f = find_front(fview(fronts@), want as int);
            match r {
                Some(k) => f == k as int && k < fronts@.len(),
                None => f == -1,
            }
        }),
{
    let ghost fs = fview(fronts@);
    proof {
        lemma_find_front_char(fs, want as int);
    }
    let mut k: usize = 0;
    while k < fronts.len()
        invariant
            k <= fronts@.len(),
            fs == fview(fronts@),
            forall|j: int| 0 <= j < k ==> fs[j].0 + fs[j].1 != want as int,
        decreases fronts@.len() - k,
    {
        let (origin, off) = fronts[k];
        if origin as i128 + off as i128 == want {
            proof {
                assert(fs[k as int].0 + fs[k as int].1 == want as int);
                lemma_find_front_char(fs, want as int);
                let f = find_front(fs, want as int);
                if f == -1 {
                    assert(fs[k as int].0 + fs[k as int].1 != want as int);
                }
                if f < k as int {
                    assert(fs[f].0 + fs[f].1 != want as int);
                    assert(fs[f].0 + fs[f].1 == want as int);
                }
                if f > k as int {
                    assert(fs[k as int].0 + fs[k as int].1 != want as int);
                }
                assert(f == k as int);
            }
            return Some(k);
        }
        k = k + 1;
    }
    None
}

/// One instruction of a balanced stream preserves the bookkeeping shape.
#[verifier::rlimit(100)]
#[verifier::spinoff_prover]
proof fn lemma_fold_inv_step(instrs: Seq<InstructionModel>, k: int)
    requires
        balanced(instrs),
        0 <= k < instrs.len(),
        fold_inv(instrs, k),
    ensures
        fold_inv(instrs, k + 1),
{
    let st = resolve_fold(instrs, k);
    let st2 = resolve_fold(instrs, k + 1);
    assert(st2 == resolve_step(st, instrs[k], k));
    let inst = instrs[k];
    // an old deferred label never aims at a position that is no jump point
    assert forall|j: int|
        0 <= j < st.fronts.len() && !(inst matches InstructionModel::JumpPoint(_)) implies (
    #[trigger] st.fronts[j]).0 + st.fronts[j].1 >= k + 1 by {
        let e = st.fronts[j];
        assert(front_entry_ok(instrs, k, e));
        if e.0 + e.1 == k {
            assert(instrs[e.0 + jump_offset(instrs[e.0])->Some_0] is JumpPoint);
        }
    }
    match inst {
        InstructionModel::Jump(off) | InstructionModel::JumpComp(off) => {
            if off < 0 {
                let p = k + off as int;
                assert(jump_targets(instrs, k, p));
                assert(0 <= p < instrs.len() && instrs[p] is JumpPoint);
                assert(st.backs.contains(p));
                let w = choose|w: int| 0 <= w < st.backs.len() && st.backs[w] == p;
                lemma_find_back_char(st.backs, p);
                let f = find_back(st.backs, p);
                assert(f != -1);
                assert(st.backs[f] == p);
                assert(st2.backs == st.backs.remove(f));
                assert forall|j: int| 0 <= j < st2.backs.len() implies back_entry_ok(
                    instrs,
                    k + 1,
                    #[trigger] st2.backs[j],
                ) by {
                    let q = if j < f {
                        st.backs[j]
                    } else {
                        st.backs[j + 1]
                    };
                    assert(st2.backs[j] == q);
                    assert(back_entry_ok(instrs, k, q));
                    assert(q != p);
                    assert forall|i: int| #[trigger] jump_targets(instrs, i, q) implies i >= k
                        + 1 by {
                        if i == k {
                            assert(q == p);
                        }
                    }
                }
                assert forall|p2: int, i2: int|
                    0 <= p2 < k + 1 && #[trigger] jump_targets(instrs, i2, p2) && i2 >= k
                        + 1 implies st2.backs.contains(p2) by {
                    assert(jump_targets(instrs, k, p));
                    if p2 == p {
                        assert(i2 == k);
                    }
                    assert(p2 != p);
                    assert(st.backs.contains(p2));
                    let w2 = choose|w2: int| 0 <= w2 < st.backs.len() && st.backs[w2] == p2;
                    assert(w2 != f);
                    if w2 < f {
                        assert(st2.backs[w2] == p2);
                    } else {
                        assert(st2.backs[w2 - 1] == p2);
                    }
                }
                assert forall|i: int|
                    (0 <= i < k + 1 && jump_offset(#[trigger] instrs[i]) is Some && jump_offset(
                        instrs[i],
                    )->Some_0 >= 0 && i + jump_offset(instrs[i])->Some_0 >= k + 1) implies st2
                    .fronts.contains((i, jump_offset(instrs[i])->Some_0)) by {
                    assert(i != k);
                }
            } else {
                assert(st2.fronts == st.fronts.push((k, off as int)));
                assert(instrs[k + jump_offset(instrs[k])->Some_0] is JumpPoint);
                if off == 0 {
                    assert(instrs[k] is JumpPoint);
                    assert(false);
                }
                assert forall|j: int| 0 <= j < st2.fronts.len() implies front_entry_ok(
                    instrs,
                    k + 1,
                    #[trigger] st2.fronts[j],
                ) by {
                    if j < st.fronts.len() {
                        assert(st2.fronts[j] == st.fronts[j]);
                        assert(front_entry_ok(instrs, k, st.fronts[j]));
                    } else {
                        assert(st2.fronts[j] == (k, off as int));
                    }
                }
                assert forall|i: int|
                    (0 <= i < k + 1 && jump_offset(#[trigger] instrs[i]) is Some && jump_offset(
                        instrs[i],
                    )->Some_0 >= 0 && i + jump_offset(instrs[i])->Some_0 >= k + 1) implies st2
                    .fronts.contains((i, jump_offset(instrs[i])->Some_0)) by {
                    if i == k {
                        assert(st2.fronts[st2.fronts.len() - 1] == (k, off as int));
                    } else {
                        assert(st.fronts.contains((i, jump_offset(instrs[i])->Some_0)));
                        let w = choose|w: int|
                            0 <= w < st.fronts.len() && st.fronts[w] == (
                            i,
                            jump_offset(instrs[i])->Some_0,
                            );
                        assert(st2.fronts[w] == st.fronts[w]);
                    }
                }
                assert forall|j1: int, j2: int|
                    0 <= j1 < j2 < st2.fronts.len() implies (#[trigger] st2.fronts[j1]).0 != (
                #[trigger] st2.fronts[j2]).0 by {
                    if j2 == st.fronts.len() {
                        assert(front_entry_ok(instrs, k, st.fronts[j1]));
                    }
                }
                assert forall|j: int| 0 <= j < st2.backs.len() implies back_entry_ok(
                    instrs,
                    k + 1,
                    #[trigger] st2.backs[j],
                ) by {
                    assert(back_entry_ok(instrs, k, st.backs[j]));
                    assert forall|i: int|
                        #[trigger] jump_targets(instrs, i, st.backs[j]) implies i >= k + 1 by {
                        if i == k {
                            assert(st.backs[j] == k + off as int);
                            assert(back_entry_ok(instrs, k, st.backs[j]));
                        }
                    }
                }
            }
        },
        InstructionModel::JumpPoint(_) => {
            lemma_find_front_char(st.fronts, k);
            let f = find_front(st.fronts, k);
            assert(exists|i: int| #[trigger] jump_targets(instrs, i, k));
            let i0 = choose|i0: int| #[trigger] jump_targets(instrs, i0, k);
            if f == -1 {
                // the aiming jump has not arrived yet: the point stands as a
                // backward target
                assert(st2.backs == st.backs.push(k));
                assert(st2.fronts == st.fronts);
                assert(i0 != k);
                if i0 < k {
                    let o0 = jump_offset(instrs[i0])->Some_0;
                    assert(o0 == k - i0 >= 0);
                    assert(st.fronts.contains((i0, o0)));
                    let w = choose|w: int|
                        0 <= w < st.fronts.len() && st.fronts[w] == (i0, o0);
                    assert(st.fronts[w].0 + st.fronts[w].1 == k);
                    assert(false);
                }
                assert forall|j: int| 0 <= j < st2.backs.len() implies back_entry_ok(
                    instrs,
                    k + 1,
                    #[trigger] st2.backs[j],
                ) by {
                    if j < st.backs.len() {
                        assert(st2.backs[j] == st.backs[j]);
                        assert(back_entry_ok(instrs, k, st.backs[j]));
                        assert forall|i: int|
                            #[trigger] jump_targets(instrs, i, st.backs[j]) implies i >= k
                            + 1 by {
                            if i == k {
                                assert(jump_offset(instrs[k]) is Some);
                            }
                        }
                    } else {
                        assert(st2.backs[j] == k);
                        assert forall|i: int| #[trigger] jump_targets(instrs, i, k) implies i
                            >= k + 1 by {
                            assert(i == i0);
                            assert(i0 > k);
                        }
                    }
                }
                assert forall|p2: int, i2: int|
                    0 <= p2 < k + 1 && #[trigger] jump_targets(instrs, i2, p2) && i2 >= k
                        + 1 implies st2.backs.contains(p2) by {
                    if p2 == k {
                        assert(st2.backs[st2.backs.len() - 1] == k);
                    } else {
                        assert(st.backs.contains(p2));
                        let w2 = choose|w2: int|
                            0 <= w2 < st.backs.len() && st.backs[w2] == p2;
                        assert(st2.backs[w2] == p2);
                    }
                }
                assert forall|j1: int, j2: int|
                    0 <= j1 < j2 < st2.backs.len() implies (#[trigger] st2.backs[j1]) != (
                #[trigger] st2.backs[j2]) by {
                    if j2 == st.backs.len() {
                        assert(back_entry_ok(instrs, k, st.backs[j1]));
                    }
                }
                assert forall|i: int|
                    (0 <= i < k + 1 && jump_offset(#[trigger] instrs[i]) is Some && jump_offset(
                        instrs[i],
                    )->Some_0 >= 0 && i + jump_offset(instrs[i])->Some_0 >= k + 1) implies st2
                    .fronts.contains((i, jump_offset(instrs[i])->Some_0)) by {
                    assert(i != k);
                }
            } else {
                // the aiming forward jump is on file: its label binds here
                assert(st.fronts[f].0 + st.fronts[f].1 == k);
                assert(st2.fronts == st.fronts.remove(f));
                assert(st2.backs == st.backs);
                assert(front_entry_ok(instrs, k, st.fronts[f]));
                assert(jump_targets(instrs, st.fronts[f].0, k));
                assert forall|j: int| 0 <= j < st2.fronts.len() implies front_entry_ok(
                    instrs,
                    k + 1,
                    #[trigger] st2.fronts[j],
                ) by {
                    let e = if j < f {
                        st.fronts[j]
                    } else {
                        st.fronts[j + 1]
                    };
                    assert(st2.fronts[j] == e);
                    assert(front_entry_ok(instrs, k, e));
                    if e.0 + e.1 == k {
                        assert(jump_targets(instrs, e.0, k));
                        assert(e.0 == st.fronts[f].0);
                    }
                }
                assert forall|i: int|
                    (0 <= i < k + 1 && jump_offset(#[trigger] instrs[i]) is Some && jump_offset(
                        instrs[i],
                    )->Some_0 >= 0 && i + jump_offset(instrs[i])->Some_0 >= k + 1) implies st2
                    .fronts.contains((i, jump_offset(instrs[i])->Some_0)) by {
                    assert(i != k);
                    let e2 = (i, jump_offset(instrs[i])->Some_0);
                    assert(st.fronts.contains(e2));
                    let w = choose|w: int| 0 <= w < st.fronts.len() && st.fronts[w] == e2;
                    assert(w != f);
                    if w < f {
                        assert(st2.fronts[w] == e2);
                    } else {
                        assert(st2.fronts[w - 1] == e2);
                    }
                }
                assert forall|j1: int, j2: int|
                    0 <= j1 < j2 < st2.fronts.len() implies (#[trigger] st2.fronts[j1]).0 != (
                #[trigger] st2.fronts[j2]).0 by {
                    let p1: int = if j1 < f {
                        j1
                    } else {
                        j1 + 1
                    };
                    let p2: int = if j2 < f {
                        j2
                    } else {
                        j2 + 1
                    };
                    assert(st2.fronts[j1] == st.fronts[p1]);
                    assert(st2.fronts[j2] == st.fronts[p2]);
                }
                assert forall|j: int| 0 <= j < st2.backs.len() implies back_entry_ok(
                    instrs,
                    k + 1,
                    #[trigger] st2.backs[j],
                ) by {
                    assert(back_entry_ok(instrs, k, st.backs[j]));
                    assert forall|i: int|
                        #[trigger] jump_targets(instrs, i, st.backs[j]) implies i >= k + 1 by {
                        if i == k {
                            assert(jump_offset(instrs[k]) is Some);
                        }
                    }
                }
            }
        },
        _ => {
            assert(st2.fronts == st.fronts);
            assert(st2.backs == st.backs);
            assert forall|j: int| 0 <= j < st2.backs.len() implies back_entry_ok(
                instrs,
                k + 1,
                #[trigger] st2.backs[j],
            ) by {
                assert(back_entry_ok(instrs, k, st.backs[j]));
                assert forall|i: int|
                    #[trigger] jump_targets(instrs, i, st.backs[j]) implies i >= k + 1 by {
                    if i == k {
                        assert(jump_offset(instrs[k]) is Some);
                    }
                }
            }
            assert forall|i: int|
                (0 <= i < k + 1 && jump_offset(#[trigger] instrs[i]) is Some && jump_offset(
                    instrs[i],
                )->Some_0 >= 0 && i + jump_offset(instrs[i])->Some_0 >= k + 1) implies st2
                .fronts.contains((i, jump_offset(instrs[i])->Some_0)) by {
                assert(i != k);
            }
        },
    }
}

/// The bookkeeping of a balanced stream keeps its shape through every
/// prefix.
proof fn lemma_fold_inv(instrs: Seq<InstructionModel>, k: int)
    requires
        balanced(instrs),
        0 <= k <= instrs.len(),
    ensures
        fold_inv(instrs, k),
    decreases k,
{
    if k > 0 {
        lemma_fold_inv(instrs, k - 1);
        lemma_fold_inv_step(instrs, k - 1);
    }
}

/// Law: a balanced instruction stream — matched forward and backward jumps,
/// each jump aimed at a point, each point aimed at by exactly one jump —
/// compiles: resolution finalizes with no leftover bookkeeping, so
/// `Jit::new` succeeds on it.
pub proof fn lemma_balanced_resolves(instrs: Seq<InstructionModel>)
    requires
        balanced(instrs),
    ensures
        resolves(instrs),
{
    let n = instrs.len() as int;
    lemma_fold_inv(instrs, n);
    let st = resolve_fold(instrs, n);
    if st.fronts.len() > 0 {
        let e = st.fronts[0];
        assert(front_entry_ok(instrs, n, e));
        // that jump aims inside the stream, yet at or past its end
        assert(instrs[e.0 + jump_offset(instrs[e.0])->Some_0] is JumpPoint);
        assert(e.0 + e.1 < n);
        assert(false);
    }
    if st.backs.len() > 0 {
        let p = st.backs[0];
        assert(back_entry_ok(instrs, n, p));
        // that point's one aiming jump lies inside the stream, before its end
        let i0 = choose|i0: int| #[trigger] jump_targets(instrs, i0, p);
        assert(i0 >= n);
        assert(i0 < instrs.len());
        assert(false);
    }
}

/// Once resolution fails it stays failed: later instructions only pass the
/// flag along.
proof fn lemma_failed_sticky(instrs: Seq<InstructionModel>, a: int, b: int)
    requires
        0 <= a <= b,
        resolve_fold(instrs, a).failed,
    ensures
        resolve_fold(instrs, b).failed,
    decreases b - a,
{
    if a < b {
        lemma_failed_sticky(instrs, a, b - 1);
    }
}

/// True when the plan op at `j` is a branch bound to an in-range mark, or
/// no branch at all.
pub open spec fn branch_bound(ops: Seq<JitOpModel>, j: int) -> bool {
    match ops[j] {
        JitOpModel::Branch { target, .. } => match target {
            Some(t) => 0 <= t < ops.len() && ops[t] is Mark,
            None => false,
        },
        _ => true,
    }
}

/// True when the plan op at `j` is consistent with the bookkeeping: a bound
/// branch points at an in-range mark, an unbound one has its deferred label
/// on file.
pub open spec fn branch_state_ok(ops: Seq<JitOpModel>, fronts: Seq<(usize, i32)>, j: int) -> bool {
    match ops[j] {
        JitOpModel::Branch { offset, target, .. } => match target {
            Some(t) => 0 <= t < ops.len() && ops[t] is Mark && t == j + offset as int,
            None => fronts_names(fronts, j),
        },
        _ => true,
    }
}

/// True when a plan op under construction already mirrors its instruction:
/// the right call, the right branch shape, or a mark — only a forward
/// branch's target may still be pending.
pub open spec fn building_matches(op: JitOpModel, inst: InstructionModel) -> bool {
    match inst {
        InstructionModel::Jump(off) => op matches JitOpModel::Branch { conditional, offset, .. }
            && conditional == false && offset == off,
        InstructionModel::JumpComp(off) => op matches JitOpModel::Branch {
            conditional,
            offset,
            ..
        } && conditional == true && offset == off,
        InstructionModel::JumpPoint(_) => op is Mark,
        _ => op == JitOpModel::Invoke(inst),
    }
}

/// True when the finalized plan op at `j` mirrors its instruction exactly:
/// a jump's branch is bound to the position its offset names.
pub open spec fn op_matches(op: JitOpModel, inst: InstructionModel, j: int) -> bool {
    match inst {
        InstructionModel::Jump(off) => op == (JitOpModel::Branch {
            conditional: false,
            offset: off,
            target: Some(j + off as int),
        }),
        InstructionModel::JumpComp(off) => op == (JitOpModel::Branch {
            conditional: true,
            offset: off,
            target: Some(j + off as int),
        }),
        InstructionModel::JumpPoint(_) => op is Mark,
        _ => op == JitOpModel::Invoke(inst),
    }
}

/// True when a plan mirrors an instruction vector op for op.
pub open spec fn plan_matches(ops: Seq<JitOpModel>, instrs: Seq<InstructionModel>) -> bool {
    ops.len() == instrs.len() && forall|j: int|
        0 <= j < ops.len() ==> op_matches(#[trigger] ops[j], instrs[j], j)
}

/// A compiled function: a plan of trampoline calls with every jump bound to
/// its mark, alongside the instruction vector it was compiled from.
#[derive(Debug)]
pub struct Jit {
    pub ops: Vec<JitOp>,
    pub reference: Vec<Instruction>,
}

impl Jit {
    /// The compiled plan.
    pub open spec fn plan(&self) -> Seq<JitOpModel> {
        jview(self.ops@)
    }

    /// A finalized plan: every branch is bound to an in-range mark.
    pub open spec fn wf(&self) -> bool {
        forall|j: int| 0 <= j < self.plan().len() ==> branch_bound(self.plan(), j)
    }

    /// Compiles an instruction vector into a plan. Compilation succeeds
    /// exactly when every jump resolves; the plan is then the one the
    /// resolution bookkeeping lays out, with no dangling branch. A backward
    /// jump with no point to land on, or leftover bookkeeping at the end,
    /// is a compile error; the caller may fall back to interpretation.
    #[verifier::rlimit(100)]
    #[verifier::spinoff_prover]
    pub fn new(instructions: Vec<Instruction>) -> (r: Result<Jit, RuntimeError>)
        ensures
            r is Ok <==> resolves(iview(instructions@)),
            match r {
                Ok(j) => {
                    &&& j.reference@ == instructions@
                    &&& j.plan() == resolve_fold(
                        iview(instructions@),
                        instructions@.len() as int,
                    ).ops
                    &&& j.wf()
                    &&& plan_matches(j.plan(), iview(instructions@))
                },
                Err(e) => e.ty == RuntimeErrorTy::JitError,
            },
    {
        let ghost ispec = iview(instructions@);
        let mut ops: Vec<JitOp> = Vec::new();
        let mut fronts: Vec<(usize, i32)> = Vec::new();
        let mut backs: Vec<usize> = Vec::new();
        let mut ptr: usize = 0;
        while ptr < instructions.len()
            invariant
                ptr <= instructions@.len(),
                ispec == iview(instructions@),
                ispec.len() == instructions@.len(),
                ops@.len() == ptr,
                !resolve_fold(ispec, ptr as int).failed,
                jview(ops@) == resolve_fold(ispec, ptr as int).ops,
                fview(fronts@) == resolve_fold(ispec, ptr as int).fronts,
                bview(backs@) == resolve_fold(ispec, ptr as int).backs,
                forall|j: int|
                    0 <= j < fronts@.len() ==> fronts@[j].0 < ops@.len() && (jview(
                        ops@,
                    )[fronts@[j].0 as int] matches JitOpModel::Branch { offset, target, .. }
                        && target is None && offset == fronts@[j].1),
                forall|j: int|
                    0 <= j < backs@.len() ==> backs@[j] < ops@.len() && jview(
                        ops@,
                    )[backs@[j] as int] is Mark,
                forall|j: int| 0 <= j < ops@.len() ==> branch_state_ok(jview(ops@), fronts@, j),
                forall|j: int|
                    0 <= j < ops@.len() ==> building_matches(#[trigger] jview(ops@)[j], ispec[j]),
                forall|j1: int, j2: int|
                    0 <= j1 < j2 < fronts@.len() ==> (#[trigger] fronts@[j1]).0 != (
                    #[trigger] fronts@[j2]).0,
            decreases instructions@.len() - ptr,
        {
            let ghost pre_st = resolve_fold(ispec, ptr as int);
            let ghost pre_ops = ops@;
            let ghost pre_fronts = fronts@;
            let ghost pre_backs = backs@;
            proof {
                assert(ispec[ptr as int] == instructions@[ptr as int]@);
                assert(resolve_fold(ispec, ptr as int + 1) == resolve_step(
                    pre_st,
                    ispec[ptr as int],
                    ptr as int,
                ));
            }
            let inst = &instructions[ptr];
            match inst {
                Instruction::Jump(off) | Instruction::JumpComp(off) => {
                    let conditional = matches!(inst, Instruction::JumpComp(_));
                    if *off < 0 {
                        let want: i128 = ptr as i128 + *off as i128;
                        match find_back_exec(&backs, want) {
                            Some(k) => {
                                let t = backs[k];
                                backs.remove(k);
                                ops.push(
                                    JitOp::Branch {
                                        conditional,
                                        offset: *off,
                                        target: Some(t),
                                    },
                                );
                                proof {
                                    lemma_find_back_char(bview(pre_backs), want as int);
                                    assert(bview(pre_backs)[k as int] == want as int);
                                    assert(t as int == ptr + *off as int);
                                    assert(bview(backs@) =~= pre_st.backs.remove(k as int));
                                    assert(jview(ops@) =~= pre_st.ops.push(
                                        JitOpModel::Branch {
                                            conditional,
                                            offset: *off,
                                            target: Some(t as int),
                                        },
                                    ));
                                    assert forall|j: int| 0 <= j < backs@.len() implies backs@[j]
                                        < ops@.len() && jview(ops@)[backs@[j] as int] is Mark by {
                                        if j < k {
                                            assert(backs@[j] == pre_backs[j]);
                                        } else {
                                            assert(backs@[j] == pre_backs[j + 1]);
                                        }
                                    }
                                    assert forall|j: int|
                                        0 <= j < ops@.len() implies branch_state_ok(
                                        jview(ops@),
                                        fronts@,
                                        j,
                                    ) by {
                                        if j < pre_ops.len() {
                                            assert(branch_state_ok(jview(pre_ops), pre_fronts, j));
                                            if jview(pre_ops)[j] matches JitOpModel::Branch {
                                                target: Option::None,
                                                ..
                                            } {
                                                assert(fronts_names(pre_fronts, j));
                                                let k2 = choose|k2: int|
                                                    0 <= k2 < pre_fronts.len() && (
                                                    #[trigger] pre_fronts[k2]).0 == j;
                                                assert((fronts@[k2]).0 == j);
                                            }
                                        } else {
                                            assert(jview(pre_ops)[t as int] is Mark);
                                        }
                                    }
                                }
                            },
                            None => {
                                proof {
                                    lemma_failed_sticky(
                                        ispec,
                                        ptr as int + 1,
                                        ispec.len() as int,
                                    );
                                }
                                return Err(
                                    RuntimeError::new(
                                        RuntimeErrorTy::JitError,
                                        String::from_str(
                                            "a backward jump found no jump point to land on",
                                        ),
                                    ),
                                );
                            },
                        }
                    } else {
                        fronts.push((ptr, *off));
                        ops.push(JitOp::Branch { conditional, offset: *off, target: None });
                        proof {
                            assert(fview(fronts@) =~= pre_st.fronts.push((ptr as int, *off as int)));
                            assert(jview(ops@) =~= pre_st.ops.push(
                                JitOpModel::Branch { conditional, offset: *off, target: None },
                            ));
                            assert forall|j: int| 0 <= j < ops@.len() implies branch_state_ok(
                                jview(ops@),
                                fronts@,
                                j,
                            ) by {
                                if j < pre_ops.len() {
                                    assert(branch_state_ok(jview(pre_ops), pre_fronts, j));
                                    if jview(pre_ops)[j] matches JitOpModel::Branch {
                                        target: Option::None,
                                        ..
                                    } {
                                        assert(fronts_names(pre_fronts, j));
                                        let k = choose|k: int|
                                            0 <= k < pre_fronts.len() && (#[trigger] pre_fronts[k]).0
                                                == j;
                                        assert((fronts@[k]).0 == j);
                                    }
                                } else {
                                    assert((fronts@[fronts@.len() - 1]).0 == j);
                                }
                            }
                        }
                    }
                },
                Instruction::JumpPoint(_) => {
                    let want: i128 = ptr as i128;
                    match find_front_exec(&fronts, want) {
                        Some(k) => {
                            let (origin, _foff) = fronts[k];
                            fronts.remove(k);
                            let (conditional, boff) = match &ops[origin] {
                                JitOp::Branch { conditional, offset, .. } => (*conditional, *offset),
                                _ => {
                                    proof {
                                        assert(false);
                                    }
                                    (false, 0)
                                },
                            };
                            ops.set(
                                origin,
                                JitOp::Branch { conditional, offset: boff, target: Some(ptr) },
                            );
                            ops.push(JitOp::Mark);
                            proof {
                                lemma_find_front_char(fview(pre_fronts), want as int);
                                assert(fview(pre_fronts)[k as int].0 + fview(pre_fronts)[k as int].1
                                    == ptr as int);
                                assert(origin as int + boff as int == ptr as int);
                                let st2 = resolve_point(pre_st, ptr as int);
                                assert(fview(fronts@) =~= pre_st.fronts.remove(k as int));
                                assert(pre_st.ops[origin as int] matches JitOpModel::Branch {
                                    ..
                                });
                                assert(jview(ops@) =~= st2.ops);
                                assert forall|j1: int, j2: int|
                                    0 <= j1 < j2 < fronts@.len() implies (#[trigger] fronts@[j1]).0
                                    != (#[trigger] fronts@[j2]).0 by {
                                    let p1: int = if j1 < k { j1 } else { j1 + 1 };
                                    let p2: int = if j2 < k { j2 } else { j2 + 1 };
                                    assert(fronts@[j1] == pre_fronts[p1]);
                                    assert(fronts@[j2] == pre_fronts[p2]);
                                }
                                assert forall|j: int| 0 <= j < fronts@.len() implies fronts@[j].0
                                    < ops@.len() && (jview(
                                    ops@,
                                )[fronts@[j].0 as int] matches JitOpModel::Branch {
                                    offset,
                                    target,
                                    ..
                                } && target is None && offset == fronts@[j].1) by {
                                    if j < k {
                                        assert(fronts@[j] == pre_fronts[j]);
                                        assert(pre_fronts[j].0 != pre_fronts[k as int].0);
                                    } else {
                                        assert(fronts@[j] == pre_fronts[j + 1]);
                                        assert(pre_fronts[j + 1].0 != pre_fronts[k as int].0);
                                    }
                                }
                                assert forall|j: int| 0 <= j < ops@.len() implies branch_state_ok(
                                    jview(ops@),
                                    fronts@,
                                    j,
                                ) by {
                                    if j == origin as int {
                                    } else if j < pre_ops.len() {
                                        assert(branch_state_ok(jview(pre_ops), pre_fronts, j));
                                        if jview(pre_ops)[j] matches JitOpModel::Branch {
                                            target: Option::None,
                                            ..
                                        } {
                                            assert(fronts_names(pre_fronts, j));
                                            let k2 = choose|k2: int|
                                                0 <= k2 < pre_fronts.len() && (#[trigger] pre_fronts[k2]).0
                                                    == j;
                                            if k2 < k as int {
                                                assert((fronts@[k2]).0 == j);
                                            } else {
                                                assert(k2 > k as int);
                                                assert((fronts@[k2 - 1]).0 == j);
                                            }
                                        }
                                    }
                                }
                            }
                        },
                        None => {
                            backs.push(ptr);
                            ops.push(JitOp::Mark);
                            proof {
                                assert(bview(backs@) =~= pre_st.backs.push(ptr as int));
                                assert(jview(ops@) =~= pre_st.ops.push(JitOpModel::Mark));
                                assert forall|j: int|
                                    0 <= j < ops@.len() implies branch_state_ok(
                                    jview(ops@),
                                    fronts@,
                                    j,
                                ) by {
                                    if j < pre_ops.len() {
                                        assert(branch_state_ok(jview(pre_ops), pre_fronts, j));
                                        if jview(pre_ops)[j] matches JitOpModel::Branch {
                                            target: Option::None,
                                            ..
                                        } {
                                            assert(fronts_names(pre_fronts, j));
                                            let k2 = choose|k2: int|
                                                0 <= k2 < pre_fronts.len() && (
                                                #[trigger] pre_fronts[k2]).0 == j;
                                            assert((fronts@[k2]).0 == j);
                                        }
                                    }
                                }
                            }
                        },
                    }
                },
                _ => {
                    ops.push(JitOp::Invoke(inst.duplicate()));
                    proof {
                        assert(jview(ops@) =~= pre_st.ops.push(
                            JitOpModel::Invoke(ispec[ptr as int]),
                        ));
                        assert(!(ispec[ptr as int] matches InstructionModel::Jump(_)));
                        assert(!(ispec[ptr as int] matches InstructionModel::JumpComp(_)));
                        assert(!(ispec[ptr as int] matches InstructionModel::JumpPoint(_)));
                        assert forall|j: int|
                            0 <= j < ops@.len() implies branch_state_ok(
                            jview(ops@),
                            fronts@,
                            j,
                        ) by {
                            if j < pre_ops.len() {
                                assert(branch_state_ok(jview(pre_ops), pre_fronts, j));
                                if jview(pre_ops)[j] matches JitOpModel::Branch {
                                    target: Option::None,
                                    ..
                                } {
                                    assert(fronts_names(pre_fronts, j));
                                    let k2 = choose|k2: int|
                                        0 <= k2 < pre_fronts.len() && (
                                        #[trigger] pre_fronts[k2]).0 == j;
                                    assert((fronts@[k2]).0 == j);
                                }
                            }
                        }
                    }
                },
            }
            ptr = ptr + 1;
        }
        if fronts.len() > 0 || backs.len() > 0 {
            proof {
                assert(fview(fronts@).len() == fronts@.len());
                assert(bview(backs@).len() == backs@.len());
            }
            return Err(
                RuntimeError::new(
                    RuntimeErrorTy::JitError,
                    String::from_str("the plan has leftover loops: a dangling jump or point"),
                ),
            );
        }
        proof {
            assert(fview(fronts@).len() == 0);
            assert(bview(backs@).len() == 0);
            assert forall|j: int| 0 <= j < jview(ops@).len() implies branch_bound(
                jview(ops@),
                j,
            ) by {
                assert(branch_state_ok(jview(ops@), fronts@, j));
            }
            assert forall|j: int| 0 <= j < jview(ops@).len() implies op_matches(
                #[trigger] jview(ops@)[j],
                ispec[j],
                j,
            ) by {
                assert(branch_state_ok(jview(ops@), fronts@, j));
                assert(building_matches(jview(ops@)[j], ispec[j]));
            }
        }
        let jit = Jit { ops, reference: instructions };
        Ok(jit)
    }
}

// ---------------------------------------------------------------------------
// Running a compiled plan. Every op calls the same verified trampolines the
// interpreter uses; the plan itself decides only where control goes next.
// ---------------------------------------------------------------------------

/// Where a bounded plan run ends up: still running at a plan position when
/// the fuel ran out, done (fell off the success tail, or a trampoline
/// finished the machine), paused at a `Yield`, or failed.
pub enum PlanOutcome {
    Running(VmModel, int),
    Done(VmModel),
    Paused(VmModel),
    Failed(VmModel, RuntimeErrorTy),
}

/// The plan semantics iterated for `fuel` ops from position `pc`. An
/// `Invoke` performs one trampoline step and short-circuits when it
/// finishes the machine (that is how `Halt` trampolines out); a `Branch`
/// performs the jump trampoline and follows its bound mark when taken; a
/// `Mark` is a landing point only. A machine whose instruction pointer sits
/// at the addressable limit cannot take a trampoline step.
pub open spec fn plan_run(ops: Seq<JitOpModel>, m: VmModel, pc: int, fuel: nat) -> PlanOutcome
    decreases fuel,
{
    if pc < 0 || pc >= ops.len() {
        PlanOutcome::Done(m)
    } else if fuel == 0 {
        PlanOutcome::Running(m, pc)
    } else if m.index >= usize::MAX {
        PlanOutcome::Failed(m, RuntimeErrorTy::InvalidInstruction)
    } else {
        match ops[pc] {
            JitOpModel::Invoke(i) => match step_model(m, i) {
                StepModel::Next(m2) => if m2.finished_execution {
                    PlanOutcome::Done(m2)
                } else {
                    plan_run(ops, m2, pc + 1, (fuel - 1) as nat)
                },
                StepModel::Pause(m2) => PlanOutcome::Paused(m2),
                StepModel::Fail(k) => PlanOutcome::Failed(m, k),
            },
            JitOpModel::Mark => plan_run(
                ops,
                VmModel { index: m.index + 1, ..m },
                pc + 1,
                (fuel - 1) as nat,
            ),
            JitOpModel::Branch { conditional, offset, target } => {
                let taken = !conditional || m.prev_comp;
                let dest = if taken {
                    match target {
                        Some(t) => t,
                        None => pc + 1,
                    }
                } else {
                    pc + 1
                };
                match jump_step_model(m, offset, conditional) {
                    StepModel::Next(m2) => plan_run(ops, m2, dest, (fuel - 1) as nat),
                    StepModel::Pause(m2) => PlanOutcome::Paused(m2),
                    StepModel::Fail(k) => PlanOutcome::Failed(m, k),
                }
            },
        }
    }
}

/// True when some number of plan ops takes the machine from `m0` at the
/// plan's entry to `out`.
pub open spec fn plan_reaches(ops: Seq<JitOpModel>, m0: VmModel, out: PlanOutcome) -> bool {
    exists|fuel: nat| plan_run(ops, m0, 0, fuel) == out
}

/// Running one more plan op extends a still-running bounded plan run by
/// exactly one op, and leaves a settled one unchanged.
proof fn lemma_plan_extend(ops: Seq<JitOpModel>, m0: VmModel, pc0: int, n: nat)
    ensures
        match plan_run(ops, m0, pc0, n) {
            PlanOutcome::Running(m, pc) => plan_run(ops, m0, pc0, n + 1) == (if m.index
                >= usize::MAX {
                PlanOutcome::Failed(m, RuntimeErrorTy::InvalidInstruction)
            } else {
                match ops[pc] {
                    JitOpModel::Invoke(i) => match step_model(m, i) {
                        StepModel::Next(m2) => if m2.finished_execution {
                            PlanOutcome::Done(m2)
                        } else if pc + 1 >= ops.len() {
                            PlanOutcome::Done(m2)
                        } else {
                            PlanOutcome::Running(m2, pc + 1)
                        },
                        StepModel::Pause(m2) => PlanOutcome::Paused(m2),
                        StepModel::Fail(k) => PlanOutcome::Failed(m, k),
                    },
                    JitOpModel::Mark => if pc + 1 >= ops.len() {
                        PlanOutcome::Done(VmModel { index: m.index + 1, ..m })
                    } else {
                        PlanOutcome::Running(VmModel { index: m.index + 1, ..m }, pc + 1)
                    },
                    JitOpModel::Branch { conditional, offset, target } => {
                        let taken = !conditional || m.prev_comp;
                        let dest = if taken {
                            match target {
                                Some(t) => t,
                                None => pc + 1,
                            }
                        } else {
                            pc + 1
                        };
                        match jump_step_model(m, offset, conditional) {
                            StepModel::Next(m2) => if dest < 0 || dest >= ops.len() {
                                PlanOutcome::Done(m2)
                            } else {
                                PlanOutcome::Running(m2, dest)
                            },
                            StepModel::Pause(m2) => PlanOutcome::Paused(m2),
                            StepModel::Fail(k) => PlanOutcome::Failed(m, k),
                        }
                    },
                }
            }),
            PlanOutcome::Done(m) => plan_run(ops, m0, pc0, n + 1) == PlanOutcome::Done(m),
            PlanOutcome::Paused(m) => plan_run(ops, m0, pc0, n + 1) == PlanOutcome::Paused(m),
            PlanOutcome::Failed(m, k) => plan_run(ops, m0, pc0, n + 1) == PlanOutcome::Failed(
                m,
                k,
            ),
        },
    decreases n,
{
    if 0 <= pc0 < ops.len() {
        if n == 0 {
            if m0.index < usize::MAX {
                match ops[pc0] {
                    JitOpModel::Invoke(i) => {
                        match step_model(m0, i) {
                            StepModel::Next(m2) => {
                                assert(plan_run(ops, m2, pc0 + 1, 0) == (if pc0 + 1
                                    >= ops.len() {
                                    PlanOutcome::Done(m2)
                                } else {
                                    PlanOutcome::Running(m2, pc0 + 1)
                                }));
                            },
                            _ => {},
                        }
                    },
                    JitOpModel::Mark => {
                        let m2 = VmModel { index: m0.index + 1, ..m0 };
                        assert(plan_run(ops, m2, pc0 + 1, 0) == (if pc0 + 1 >= ops.len() {
                            PlanOutcome::Done(m2)
                        } else {
                            PlanOutcome::Running(m2, pc0 + 1)
                        }));
                    },
                    JitOpModel::Branch { conditional, offset, target } => {
                        let taken = !conditional || m0.prev_comp;
                        let dest = if taken {
                            match target {
                                Some(t) => t,
                                None => pc0 + 1,
                            }
                        } else {
                            pc0 + 1
                        };
                        match jump_step_model(m0, offset, conditional) {
                            StepModel::Next(m2) => {
                                assert(plan_run(ops, m2, dest, 0) == (if dest < 0 || dest
                                    >= ops.len() {
                                    PlanOutcome::Done(m2)
                                } else {
                                    PlanOutcome::Running(m2, dest)
                                }));
                            },
                            _ => {},
                        }
                    },
                }
            }
        } else {
            if m0.index < usize::MAX {
                match ops[pc0] {
                    JitOpModel::Invoke(i) => {
                        match step_model(m0, i) {
                            StepModel::Next(m2) => {
                                if !m2.finished_execution {
                                    lemma_plan_extend(ops, m2, pc0 + 1, (n - 1) as nat);
                                }
                            },
                            _ => {},
                        }
                    },
                    JitOpModel::Mark => {
                        lemma_plan_extend(
                            ops,
                            VmModel { index: m0.index + 1, ..m0 },
                            pc0 + 1,
                            (n - 1) as nat,
                        );
                    },
                    JitOpModel::Branch { conditional, offset, target } => {
                        let taken = !conditional || m0.prev_comp;
                        let dest = if taken {
                            match target {
                                Some(t) => t,
                                None => pc0 + 1,
                            }
                        } else {
                            pc0 + 1
                        };
                        match jump_step_model(m0, offset, conditional) {
                            StepModel::Next(m2) => {
                                lemma_plan_extend(ops, m2, dest, (n - 1) as nat);
                            },
                            _ => {},
                        }
                    },
                }
            }
        }
    }
}

/// Every opcode except calls, returns and jumps either finishes the
/// machine or moves its instruction pointer exactly one ahead when it
/// succeeds.
proof fn lemma_step_advances(m: VmModel, inst: InstructionModel)
    requires
        !(inst matches InstructionModel::Func(_)),
        !(inst matches InstructionModel::Return),
        !(inst matches InstructionModel::Jump(_)),
        !(inst matches InstructionModel::JumpComp(_)),
    ensures
        match step_model(m, inst) {
            StepModel::Next(m2) => m2 == (VmModel {
                index: m.index + 1,
                finished_execution: m2.finished_execution,
                ..m2
            }) && m2.finished_execution == (m.finished_execution || inst
                matches InstructionModel::Halt),
            StepModel::Pause(m2) => m2 == (VmModel { index: m.index + 1, ..m }),
            StepModel::Fail(_) => true,
        },
{
}

/// Law: a compiled plan and the interpreter agree observably, step for
/// step, on any instruction stream without calls and returns (whose
/// control transfer re-enters the stream through the runtime dispatcher
/// rather than the compiled body): started from the same unfinished
/// machine, with the plan's counter at the machine's instruction pointer,
/// both runs reach the same machine states, the same pauses, and the same
/// failures, under every step budget.
pub proof fn lemma_compiled_agrees(
    ops: Seq<JitOpModel>,
    instrs: Seq<InstructionModel>,
    m: VmModel,
    fuel: nat,
)
    requires
        plan_matches(ops, instrs),
        instrs.len() <= usize::MAX,
        forall|j: int|
            0 <= j < instrs.len() ==> !((#[trigger] instrs[j]) matches InstructionModel::Func(_))
                && !(instrs[j] matches InstructionModel::Return),
        !m.finished_execution,
    ensures
        match run_model(instrs, m, fuel) {
            RunOutcome::Running(m2) => plan_run(ops, m, m.index, fuel) == PlanOutcome::Running(
                m2,
                m2.index,
            ) && !m2.finished_execution,
            RunOutcome::Done(m2) => plan_run(ops, m, m.index, fuel) == PlanOutcome::Done(m2),
            RunOutcome::Paused(m2) => plan_run(ops, m, m.index, fuel) == PlanOutcome::Paused(m2),
            RunOutcome::Failed(m2, k) => plan_run(ops, m, m.index, fuel) == PlanOutcome::Failed(
                m2,
                k,
            ),
        },
    decreases fuel,
{
    if crate::vm::settled(m, instrs.len() as int) {
    } else if fuel == 0 {
    } else {
        let inst = instrs[m.index];
        assert(op_matches(ops[m.index], inst, m.index));
        match inst {
            InstructionModel::JumpPoint(_) => {
                let m2 = VmModel { index: m.index + 1, ..m };
                assert(step_model(m, inst) == StepModel::Next(m2));
                lemma_compiled_agrees(ops, instrs, m2, (fuel - 1) as nat);
            },
            InstructionModel::Jump(off) => {
                match jump_step_model(m, off, false) {
                    StepModel::Next(m2) => {
                        assert(m2.index == m.index + off as int);
                        lemma_compiled_agrees(ops, instrs, m2, (fuel - 1) as nat);
                    },
                    _ => {},
                }
            },
            InstructionModel::JumpComp(off) => {
                match jump_step_model(m, off, true) {
                    StepModel::Next(m2) => {
                        if m.prev_comp {
                            assert(m2.index == m.index + off as int);
                        } else {
                            assert(m2.index == m.index + 1);
                        }
                        lemma_compiled_agrees(ops, instrs, m2, (fuel - 1) as nat);
                    },
                    _ => {},
                }
            },
            _ => {
                lemma_step_advances(m, inst);
                match step_model(m, inst) {
                    StepModel::Next(m2) => {
                        if m2.finished_execution {
                            assert(run_model(instrs, m2, (fuel - 1) as nat) == RunOutcome::Done(
                                m2,
                            ));
                        } else {
                            assert(m2.index == m.index + 1);
                            lemma_compiled_agrees(ops, instrs, m2, (fuel - 1) as nat);
                        }
                    },
                    _ => {},
                }
            },
        }
    }
}

/// Law: printing an absent register fails identically on both paths. When
/// a machine running a call- and return-free stream stands at a `Print` of
/// a register holding `None`, the next step is a null-value failure on the
/// interpreter and on any plan compiled from that stream alike, and both
/// leave the machine — the output sink included — exactly as it was.
pub proof fn lemma_print_none_agrees(
    ops: Seq<JitOpModel>,
    instrs: Seq<InstructionModel>,
    m: VmModel,
    reg: u8,
    fuel: nat,
)
    requires
        plan_matches(ops, instrs),
        instrs.len() <= usize::MAX,
        forall|j: int|
            0 <= j < instrs.len() ==> !((#[trigger] instrs[j]) matches InstructionModel::Func(_))
                && !(instrs[j] matches InstructionModel::Return),
        !m.finished_execution,
        0 <= m.index < instrs.len(),
        instrs[m.index] == InstructionModel::Print(reg),
        m.registers[reg as int] is NoneType,
        fuel >= 1,
    ensures
        step_model(m, instrs[m.index]) == StepModel::Fail(RuntimeErrorTy::NullVar),
        run_model(instrs, m, fuel) == RunOutcome::Failed(m, RuntimeErrorTy::NullVar),
        plan_run(ops, m, m.index, fuel) == PlanOutcome::Failed(m, RuntimeErrorTy::NullVar),
{
    assert(op_matches(ops[m.index], instrs[m.index], m.index));
    assert(ops[m.index] == JitOpModel::Invoke(InstructionModel::Print(reg)));
}

impl Jit {
    /// Runs the compiled plan against the machine for at most `fuel` ops,
    /// exactly as the iterated plan semantics gives it. The compiled
    /// function always ends in a success tail reached by falling through;
    /// `Halt` (and a final `Return`) trampoline out early.
    #[verifier::rlimit(100)]
    #[verifier::spinoff_prover]
    pub fn run_with_fuel(&self, vm: &mut Vm, fuel: u64) -> (r: Result<RunState, RuntimeError>)
        requires
            self.wf(),
            old(vm).wf(),
        ensures
            final(vm).wf(),
            match r {
                Ok(RunState::Finished) => plan_reaches(
                    self.plan(),
                    old(vm)@,
                    PlanOutcome::Done(final(vm)@),
                ),
                Ok(RunState::Yielded) => plan_reaches(
                    self.plan(),
                    old(vm)@,
                    PlanOutcome::Paused(final(vm)@),
                ),
                Ok(RunState::Exhausted) => exists|pc: int|
                    plan_run(self.plan(), old(vm)@, 0, fuel as nat) == PlanOutcome::Running(
                        final(vm)@,
                        pc,
                    ),
                Err(e) => plan_reaches(
                    self.plan(),
                    old(vm)@,
                    PlanOutcome::Failed(final(vm)@, e.ty),
                ),
            },
    {
        let ghost plan = self.plan();
        let ghost m0 = old(vm)@;
        let mut pc: usize = 0;
        let mut steps: u64 = 0;
        while steps < fuel && pc < self.ops.len()
            invariant
                vm.wf(),
                self.wf(),
                steps <= fuel,
                m0 == old(vm)@,
                plan == self.plan(),
                plan.len() == self.ops@.len(),
                plan_run(plan, m0, 0, steps as nat) == (if pc >= plan.len() {
                    PlanOutcome::Done(vm@)
                } else {
                    PlanOutcome::Running(vm@, pc as int)
                }),
            decreases fuel - steps,
        {
            proof {
                lemma_plan_extend(plan, m0, 0, steps as nat);
            }
            if vm.index == usize::MAX {
                proof {
                    assert(plan_run(plan, m0, 0, (steps + 1) as nat) == PlanOutcome::Failed(
                        vm@,
                        RuntimeErrorTy::InvalidInstruction,
                    ));
                }
                return Err(
                    RuntimeError::new(
                        RuntimeErrorTy::InvalidInstruction,
                        String::from_str(
                            "the instruction pointer sits at the addressable limit",
                        ),
                    ),
                );
            }
            let op = &self.ops[pc];
            proof {
                assert(op@ == plan[pc as int]);
            }
            match op {
                JitOp::Invoke(i) => {
                    match step(vm, i) {
                        Ok(Flow::Continue) => {
                            if vm.finished_execution {
                                proof {
                                    assert(plan_run(plan, m0, 0, (steps + 1) as nat)
                                        == PlanOutcome::Done(vm@));
                                }
                                return Ok(RunState::Finished);
                            }
                            pc = pc + 1;
                            steps = steps + 1;
                        },
                        Ok(Flow::Yielded) => {
                            proof {
                                assert(plan_run(plan, m0, 0, (steps + 1) as nat)
                                    == PlanOutcome::Paused(vm@));
                            }
                            return Ok(RunState::Yielded);
                        },
                        Err(e) => {
                            proof {
                                assert(plan_run(plan, m0, 0, (steps + 1) as nat)
                                    == PlanOutcome::Failed(vm@, e.ty));
                            }
                            return Err(e);
                        },
                    }
                },
                JitOp::Mark => {
                    vm.index = vm.index + 1;
                    pc = pc + 1;
                    steps = steps + 1;
                },
                JitOp::Branch { conditional, offset, target } => {
                    let taken = !*conditional || vm.prev_comp;
                    match step_jump(vm, *offset, *conditional) {
                        Ok(Flow::Continue) => {
                            if taken {
                                match target {
                                    Some(t) => {
                                        pc = *t;
                                    },
                                    None => {
                                        proof {
                                            assert(branch_bound(plan, pc as int));
                                            assert(false);
                                        }
                                        pc = pc + 1;
                                    },
                                }
                            } else {
                                pc = pc + 1;
                            }
                            steps = steps + 1;
                        },
                        Ok(Flow::Yielded) => {
                            proof {
                                assert(false);
                            }
                            return Ok(RunState::Yielded);
                        },
                        Err(e) => {
                            proof {
                                assert(plan_run(plan, m0, 0, (steps + 1) as nat)
                                    == PlanOutcome::Failed(vm@, e.ty));
                            }
                            return Err(e);
                        },
                    }
                },
            }
        }
        if pc >= self.ops.len() {
            proof {
                assert(plan_run(plan, m0, 0, steps as nat) == PlanOutcome::Done(vm@));
            }
            Ok(RunState::Finished)
        } else {
            proof {
                assert(steps == fuel);
            }
            Ok(RunState::Exhausted)
        }
    }

    /// Runs the compiled plan to completion under the full step budget; a
    /// run still going after the whole budget is reported as unsupported.
    pub fn run(&self, vm: &mut Vm) -> (r: Result<(), RuntimeError>)
        requires
            self.wf(),
            old(vm).wf(),
        ensures
            final(vm).wf(),
            match r {
                Ok(_) => plan_reaches(self.plan(), old(vm)@, PlanOutcome::Done(final(vm)@))
                    || plan_reaches(self.plan(), old(vm)@, PlanOutcome::Paused(final(vm)@)),
                Err(e) => plan_reaches(
                    self.plan(),
                    old(vm)@,
                    PlanOutcome::Failed(final(vm)@, e.ty),
                ) || (e.ty == RuntimeErrorTy::UnsupportedOperation && exists|pc: int|
                    plan_run(self.plan(), old(vm)@, 0, crate::vm::INTERPRET_FUEL as nat)
                        == PlanOutcome::Running(final(vm)@, pc)),
            },
    {
        match self.run_with_fuel(vm, crate::vm::INTERPRET_FUEL) {
            Ok(RunState::Finished) => Ok(()),
            Ok(RunState::Yielded) => Ok(()),
            Ok(RunState::Exhausted) => Err(
                RuntimeError::new(
                    RuntimeErrorTy::UnsupportedOperation,
                    String::from_str("the execution budget was exhausted"),
                ),
            ),
            Err(e) => Err(e),
        }
    }
}

} // verus!

