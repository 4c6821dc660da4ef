//! The tagged runtime value model: fixed-width integers of both signednesses,
//! heap-boxed big integers and strings, floats carried as raw IEEE-754 bit
//! patterns, characters, booleans, pointers (heap handles), and the two
//! sentinels `Null` and `None`. Arithmetic is "upflowing": a checked
//! operation that, on overflow, widens both operands to the next larger
//! width of the same signedness and retries; at the widest width the
//! operation is reported as unsupported rather than wrapping or crashing.

use vstd::prelude::*;
use vstd::string::StringExecFns;

use crate::bigint::{limbs_value, signed_value};
use crate::error::{RuntimeError, RuntimeErrorTy};
use crate::gc::{fetch_model, AllocId, Gc, HeapModel, HeapValue};
use crate::text::{dec_chars, dec_chars_int};

verus! {

/// A runtime value. Floats are held as their raw little-endian bit patterns
/// (`F32` a `u32`, `F64` a `u64`): the runtime assigns them no arithmetic,
/// comparison or rendering semantics, so the core stores and moves them
/// bit-exactly and reports any operation on them as unsupported.
#[derive(Debug)]
pub enum RuntimeValue {
    // Unsigned integers
    Byte(u8),
    U16(u16),
    U32(u32),
    U64(u64),
    U128(u128),
    GcUint(AllocId),
    // Signed integers
    IByte(i8),
    I16(i16),
    I32(i32),
    I64(i64),
    I128(i128),
    GcInt(AllocId),
    // Floats, as raw bit patterns
    F32(u32),
    F64(u64),
    // Text
    Char(char),
    Str(String),
    GcString(AllocId),
    // Boolean
    Bool(bool),
    // Pointer
    Pointer(AllocId),
    // Explicit null
    Null,
    // Absence / post-drop tombstone
    NoneType,
}

/// The mathematical shape of a runtime value.
pub enum ValueModel {
    Byte(u8),
    U16(u16),
    U32(u32),
    U64(u64),
    U128(u128),
    GcUint(AllocId),
    IByte(i8),
    I16(i16),
    I32(i32),
    I64(i64),
    I128(i128),
    GcInt(AllocId),
    F32(u32),
    F64(u64),
    Char(char),
    Str(Seq<char>),
    GcString(AllocId),
    Bool(bool),
    Pointer(AllocId),
    Null,
    NoneType,
}

impl View for RuntimeValue {
    type V = ValueModel;

    open spec fn view(&self) -> ValueModel {
        match self {
            RuntimeValue::Byte(n) => ValueModel::Byte(*n),
            RuntimeValue::U16(n) => ValueModel::U16(*n),
            RuntimeValue::U32(n) => ValueModel::U32(*n),
            RuntimeValue::U64(n) => ValueModel::U64(*n),
            RuntimeValue::U128(n) => ValueModel::U128(*n),
            RuntimeValue::GcUint(id) => ValueModel::GcUint(*id),
            RuntimeValue::IByte(n) => ValueModel::IByte(*n),
            RuntimeValue::I16(n) => ValueModel::I16(*n),
            RuntimeValue::I32(n) => ValueModel::I32(*n),
            RuntimeValue::I64(n) => ValueModel::I64(*n),
            RuntimeValue::I128(n) => ValueModel::I128(*n),
            RuntimeValue::GcInt(id) => ValueModel::GcInt(*id),
            RuntimeValue::F32(bits) => ValueModel::F32(*bits),
            RuntimeValue::F64(bits) => ValueModel::F64(*bits),
            RuntimeValue::Char(c) => ValueModel::Char(*c),
            RuntimeValue::Str(s) => ValueModel::Str(s@),
            RuntimeValue::GcString(id) => ValueModel::GcString(*id),
            RuntimeValue::Bool(b) => ValueModel::Bool(*b),
            RuntimeValue::Pointer(id) => ValueModel::Pointer(*id),
            RuntimeValue::Null => ValueModel::Null,
            RuntimeValue::NoneType => ValueModel::NoneType,
        }
    }
}

impl RuntimeValue {
    /// A structural copy: the copy's model is the original's. Handles are
    /// copied as handles; the payloads they name are shared, not duplicated.
    pub fn duplicate(&self) -> (r: RuntimeValue)
        ensures
            r@ == self@,
    {
        match self {
            RuntimeValue::Byte(n) => RuntimeValue::Byte(*n),
            RuntimeValue::U16(n) => RuntimeValue::U16(*n),
            RuntimeValue::U32(n) => RuntimeValue::U32(*n),
            RuntimeValue::U64(n) => RuntimeValue::U64(*n),
            RuntimeValue::U128(n) => RuntimeValue::U128(*n),
            RuntimeValue::GcUint(id) => RuntimeValue::GcUint(*id),
            RuntimeValue::IByte(n) => RuntimeValue::IByte(*n),
            RuntimeValue::I16(n) => RuntimeValue::I16(*n),
            RuntimeValue::I32(n) => RuntimeValue::I32(*n),
            RuntimeValue::I64(n) => RuntimeValue::I64(*n),
            RuntimeValue::I128(n) => RuntimeValue::I128(*n),
            RuntimeValue::GcInt(id) => RuntimeValue::GcInt(*id),
            RuntimeValue::F32(bits) => RuntimeValue::F32(*bits),
            RuntimeValue::F64(bits) => RuntimeValue::F64(*bits),
            RuntimeValue::Char(c) => RuntimeValue::Char(*c),
            RuntimeValue::Str(s) => RuntimeValue::Str(s.clone()),
            RuntimeValue::GcString(id) => RuntimeValue::GcString(*id),
            RuntimeValue::Bool(b) => RuntimeValue::Bool(*b),
            RuntimeValue::Pointer(id) => RuntimeValue::Pointer(*id),
            RuntimeValue::Null => RuntimeValue::Null,
            RuntimeValue::NoneType => RuntimeValue::NoneType,
        }
    }

    /// The stable type tag of a value's variant.
    pub fn name(&self) -> (r: &'static str)
        ensures
            r@ == variant_name(self@),
    {
        match self {
            RuntimeValue::Byte(_) => "byte",
            RuntimeValue::U16(_) => "uint16",
            RuntimeValue::U32(_) => "uint",
            RuntimeValue::U64(_) => "uint64",
            RuntimeValue::U128(_) => "uint128",
            RuntimeValue::IByte(_) => "ibyte",
            RuntimeValue::I16(_) => "int16",
            RuntimeValue::I32(_) => "int",
            RuntimeValue::I64(_) => "int64",
            RuntimeValue::I128(_) => "int128",
            RuntimeValue::F32(_) => "float",
            RuntimeValue::F64(_) => "float64",
            RuntimeValue::Bool(_) => "bool",
            RuntimeValue::Pointer(_) => "ptr",
            RuntimeValue::Char(_) => "char",
            RuntimeValue::GcString(_) => "str",
            RuntimeValue::Str(_) => "str",
            RuntimeValue::GcInt(_) => "bigint",
            RuntimeValue::GcUint(_) => "biguint",
            RuntimeValue::Null => "null",
            RuntimeValue::NoneType => "NoneType",
        }
    }
}

/// The type tag each variant reports.
pub open spec fn variant_name(m: ValueModel) -> Seq<char> {
    match m {
        ValueModel::Byte(_) => "byte"@,
        ValueModel::U16(_) => "uint16"@,
        ValueModel::U32(_) => "uint"@,
        ValueModel::U64(_) => "uint64"@,
        ValueModel::U128(_) => "uint128"@,
        ValueModel::IByte(_) => "ibyte"@,
        ValueModel::I16(_) => "int16"@,
        ValueModel::I32(_) => "int"@,
        ValueModel::I64(_) => "int64"@,
        ValueModel::I128(_) => "int128"@,
        ValueModel::F32(_) => "float"@,
        ValueModel::F64(_) => "float64"@,
        ValueModel::Bool(_) => "bool"@,
        ValueModel::Pointer(_) => "ptr"@,
        ValueModel::Char(_) => "char"@,
        ValueModel::GcString(_) => "str"@,
        ValueModel::Str(_) => "str"@,
        ValueModel::GcInt(_) => "bigint"@,
        ValueModel::GcUint(_) => "biguint"@,
        ValueModel::Null => "null"@,
        ValueModel::NoneType => "NoneType"@,
    }
}

// ---------------------------------------------------------------------------
// Width tiers. Tier 0 through 4 stand for 8-, 16-, 32-, 64- and 128-bit
// widths; "upflowing" promotes a result that overflows tier t to tier t + 1.
// ---------------------------------------------------------------------------

/// The largest value of the unsigned width of tier `t`.
pub open spec fn umax(t: int) -> int {
    if t == 0 {
        0xff
    } else if t == 1 {
        0xffff
    } else if t == 2 {
        0xffff_ffff
    } else if t == 3 {
        0xffff_ffff_ffff_ffff
    } else {
        0xffff_ffff_ffff_ffff_ffff_ffff_ffff_ffff
    }
}

/// The largest value of the signed width of tier `t`.
pub open spec fn imax(t: int) -> int {
    if t == 0 {
        0x7f
    } else if t == 1 {
        0x7fff
    } else if t == 2 {
        0x7fff_ffff
    } else if t == 3 {
        0x7fff_ffff_ffff_ffff
    } else {
        0x7fff_ffff_ffff_ffff_ffff_ffff_ffff_ffff
    }
}

/// The smallest value of the signed width of tier `t`.
pub open spec fn imin(t: int) -> int {
    -imax(t) - 1
}

/// The unsigned tier and mathematical value of a model, for the five
/// fixed-width unsigned variants.
pub open spec fn uclass(m: ValueModel) -> Option<(int, int)> {
    match m {
        ValueModel::Byte(n) => Some((0int, n as int)),
        ValueModel::U16(n) => Some((1int, n as int)),
        ValueModel::U32(n) => Some((2int, n as int)),
        ValueModel::U64(n) => Some((3int, n as int)),
        ValueModel::U128(n) => Some((4int, n as int)),
        _ => None,
    }
}

/// The signed tier and mathematical value of a model, for the five
/// fixed-width signed variants.
pub open spec fn iclass(m: ValueModel) -> Option<(int, int)> {
    match m {
        ValueModel::IByte(n) => Some((0int, n as int)),
        ValueModel::I16(n) => Some((1int, n as int)),
        ValueModel::I32(n) => Some((2int, n as int)),
        ValueModel::I64(n) => Some((3int, n as int)),
        ValueModel::I128(n) => Some((4int, n as int)),
        _ => None,
    }
}

/// The unsigned variant of tier `t` holding value `v`.
pub open spec fn make_u(t: int, v: int) -> ValueModel {
    if t == 0 {
        ValueModel::Byte(v as u8)
    } else if t == 1 {
        ValueModel::U16(v as u16)
    } else if t == 2 {
        ValueModel::U32(v as u32)
    } else if t == 3 {
        ValueModel::U64(v as u64)
    } else {
        ValueModel::U128(v as u128)
    }
}

/// The signed variant of tier `t` holding value `v`.
pub open spec fn make_i(t: int, v: int) -> ValueModel {
    if t == 0 {
        ValueModel::IByte(v as i8)
    } else if t == 1 {
        ValueModel::I16(v as i16)
    } else if t == 2 {
        ValueModel::I32(v as i32)
    } else if t == 3 {
        ValueModel::I64(v as i64)
    } else {
        ValueModel::I128(v as i128)
    }
}

/// Upflow of an unsigned result born at tier `t`: the value at its own tier
/// when it fits, at the next wider tier when it only overflowed tier `t`,
/// and nothing (an unsupported operation) past the widest tier or below
/// zero.
pub open spec fn upflow_u(t: int, v: int) -> Option<ValueModel> {
    if 0 <= v && v <= umax(t) {
        Some(make_u(t, v))
    } else if 0 <= v && t < 4 && v <= umax(t + 1) {
        Some(make_u(t + 1, v))
    } else {
        None
    }
}

/// Upflow of a signed result born at tier `t`, as `upflow_u` but against the
/// signed bounds.
pub open spec fn upflow_i(t: int, v: int) -> Option<ValueModel> {
    if imin(t) <= v && v <= imax(t) {
        Some(make_i(t, v))
    } else if t < 4 && imin(t + 1) <= v && v <= imax(t + 1) {
        Some(make_i(t + 1, v))
    } else {
        None
    }
}

/// The four upflowing operators.
#[derive(Clone, Copy, Debug, PartialEq, Eq, Structural)]
pub enum ArithOp {
    Add,
    Sub,
    Mult,
    Div,
}

/// Truncating (round-toward-zero) division, the division the fixed-width
/// machine operators perform. Never applied to a zero divisor.
pub open spec fn trunc_div(a: int, b: int) -> int {
    let qa = if a < 0 {
        -a
    } else {
        a
    };
    let qb = if b < 0 {
        -b
    } else {
        b
    };
    if b == 0 {
        0
    } else if (a < 0) != (b < 0) {
        -(qa / qb)
    } else {
        qa / qb
    }
}

/// The mathematical result of one operator on two integers.
pub open spec fn op_int(op: ArithOp, a: int, b: int) -> int {
    match op {
        ArithOp::Add => a + b,
        ArithOp::Sub => a - b,
        ArithOp::Mult => a * b,
        ArithOp::Div => trunc_div(a, b),
    }
}

/// What one unsigned same-tier operation is expected to yield: a model
/// value, or nothing where the operation is unsupported.
pub open spec fn expected_unsigned(op: ArithOp, t: int, va: int, vb: int) -> Option<ValueModel> {
    if op is Div && vb == 0 {
        None
    } else {
        upflow_u(t, op_int(op, va, vb))
    }
}

/// What one upflowing operation does: a value and the heap afterwards (the
/// heap only grows, by string concatenation), or a failure kind.
pub enum ArithEffect {
    Out(ValueModel, Seq<Option<HeapModel>>),
    Fail(RuntimeErrorTy),
}

/// The complete specification of the upflowing operators over every operand
/// pair. `None` on either side is a null-value failure; same-tier integer
/// pairs compute and upflow (a zero divisor, or a result past the widest
/// tier, is unsupported); string pairs concatenate under `Add` into a fresh
/// heap slot; boxed big-integer and float pairs are unsupported gaps; every
/// other pair is an incompatible-types failure.
pub open spec fn arith_model(
    op: ArithOp,
    a: ValueModel,
    b: ValueModel,
    heap: Seq<Option<HeapModel>>,
) -> ArithEffect {
    if a is NoneType || b is NoneType {
        ArithEffect::Fail(RuntimeErrorTy::NullVar)
    } else if uclass(a) is Some && uclass(b) is Some {
        let (ta, va) = uclass(a)->Some_0;
        let (tb, vb) = uclass(b)->Some_0;
        if ta != tb {
            ArithEffect::Fail(RuntimeErrorTy::IncompatibleTypes)
        } else {
            match expected_unsigned(op, ta, va, vb) {
                Some(m) => ArithEffect::Out(m, heap),
                None => ArithEffect::Fail(RuntimeErrorTy::UnsupportedOperation),
            }
        }
    } else if iclass(a) is Some && iclass(b) is Some {
        let (ta, va) = iclass(a)->Some_0;
        let (tb, vb) = iclass(b)->Some_0;
        if ta != tb {
            ArithEffect::Fail(RuntimeErrorTy::IncompatibleTypes)
        } else {
            match expected_signed(op, ta, va, vb) {
                Some(m) => ArithEffect::Out(m, heap),
                None => ArithEffect::Fail(RuntimeErrorTy::UnsupportedOperation),
            }
        }
    } else if a is Str && b is Str {
        if op is Add {
            concat_model(a->Str_0, b->Str_0, heap)
        } else {
            ArithEffect::Fail(RuntimeErrorTy::IncompatibleTypes)
        }
    } else if a is GcString && b is GcString {
        if op is Add {
            match (string_payload(heap, a->GcString_0), string_payload(heap, b->GcString_0)) {
                (Some(sa), Some(sb)) => concat_model(sa, sb, heap),
                _ => ArithEffect::Fail(RuntimeErrorTy::InvalidHandle),
            }
        } else {
            ArithEffect::Fail(RuntimeErrorTy::IncompatibleTypes)
        }
    } else if (a is GcUint && b is GcUint) || (a is GcInt && b is GcInt) {
        ArithEffect::Fail(RuntimeErrorTy::UnsupportedOperation)
    } else if (a is F32 && b is F32) || (a is F64 && b is F64) {
        ArithEffect::Fail(RuntimeErrorTy::UnsupportedOperation)
    } else {
        ArithEffect::Fail(RuntimeErrorTy::IncompatibleTypes)
    }
}

/// The string payload a handle names, if the handle is live and names one.
pub open spec fn string_payload(heap: Seq<Option<HeapModel>>, id: AllocId) -> Option<Seq<char>> {
    match fetch_model(heap, id) {
        Some(HeapModel::Str(s)) => Some(s),
        _ => None,
    }
}

/// Concatenation allocates the joined string in a fresh slot and hands back
/// its handle; it fails only when the heap cannot grow.
pub open spec fn concat_model(
    sa: Seq<char>,
    sb: Seq<char>,
    heap: Seq<Option<HeapModel>>,
) -> ArithEffect {
    if heap.len() == usize::MAX {
        ArithEffect::Fail(RuntimeErrorTy::AllocationError)
    } else {
        ArithEffect::Out(
            ValueModel::GcString(AllocId(heap.len() as usize)),
            heap.push(Some(HeapModel::Str(sa + sb))),
        )
    }
}

// ---------------------------------------------------------------------------
// Executable arithmetic.
// ---------------------------------------------------------------------------

/// The unsigned tier and value of a value, widened to the widest unsigned
/// machine type.
pub(crate) fn uclass_exec(v: &RuntimeValue) -> (r: Option<(u8, u128)>)
    ensures
        match r {
            Some((t, w)) => {
                &&& uclass(v@) == Some((t as int, w as int))
                &&& t <= 4
                &&& w as int <= umax(t as int)
            },
            None => uclass(v@) is None,
        },
{
    match v {
        RuntimeValue::Byte(n) => Some((0, *n as u128)),
        RuntimeValue::U16(n) => Some((1, *n as u128)),
        RuntimeValue::U32(n) => Some((2, *n as u128)),
        RuntimeValue::U64(n) => Some((3, *n as u128)),
        RuntimeValue::U128(n) => Some((4, *n)),
        _ => None,
    }
}

/// The signed tier and value of a value, widened to the widest signed
/// machine type.
pub(crate) fn iclass_exec(v: &RuntimeValue) -> (r: Option<(u8, i128)>)
    ensures
        match r {
            Some((t, w)) => {
                &&& iclass(v@) == Some((t as int, w as int))
                &&& t <= 4
                &&& imin(t as int) <= w as int <= imax(t as int)
            },
            None => iclass(v@) is None,
        },
{
    match v {
        RuntimeValue::IByte(n) => Some((0, *n as i128)),
        RuntimeValue::I16(n) => Some((1, *n as i128)),
        RuntimeValue::I32(n) => Some((2, *n as i128)),
        RuntimeValue::I64(n) => Some((3, *n as i128)),
        RuntimeValue::I128(n) => Some((4, *n)),
        _ => None,
    }
}

/// The largest value of the unsigned width of tier `t`, executable side.
fn umax_exec(t: u8) -> (r: u128)
    requires
        t <= 4,
    ensures
        r as int == umax(t as int),
{
    if t == 0 {
        0xff
    } else if t == 1 {
        0xffff
    } else if t == 2 {
        0xffff_ffff
    } else if t == 3 {
        0xffff_ffff_ffff_ffff
    } else {
        0xffff_ffff_ffff_ffff_ffff_ffff_ffff_ffff
    }
}

/// The bounds of the signed width of tier `t`, executable side.
fn ibounds_exec(t: u8) -> (r: (i128, i128))
    requires
        t <= 4,
    ensures
        r.0 as int == imin(t as int),
        r.1 as int == imax(t as int),
{
    if t == 0 {
        (-0x80, 0x7f)
    } else if t == 1 {
        (-0x8000, 0x7fff)
    } else if t == 2 {
        (-0x8000_0000, 0x7fff_ffff)
    } else if t == 3 {
        (-0x8000_0000_0000_0000, 0x7fff_ffff_ffff_ffff)
    } else {
        (i128::MIN, i128::MAX)
    }
}

/// Builds the unsigned variant of tier `t` from a value that fits it.
fn make_u_exec(t: u8, v: u128) -> (r: RuntimeValue)
    requires
        t <= 4,
        v as int <= umax(t as int),
    ensures
        r@ == make_u(t as int, v as int),
{
    if t == 0 {
        RuntimeValue::Byte(v as u8)
    } else if t == 1 {
        RuntimeValue::U16(v as u16)
    } else if t == 2 {
        RuntimeValue::U32(v as u32)
    } else if t == 3 {
        RuntimeValue::U64(v as u64)
    } else {
        RuntimeValue::U128(v)
    }
}

/// Builds the signed variant of tier `t` from a value that fits it.
fn make_i_exec(t: u8, v: i128) -> (r: RuntimeValue)
    requires
        t <= 4,
        imin(t as int) <= v as int <= imax(t as int),
    ensures
        r@ == make_i(t as int, v as int),
{
    if t == 0 {
        RuntimeValue::IByte(v as i8)
    } else if t == 1 {
        RuntimeValue::I16(v as i16)
    } else if t == 2 {
        RuntimeValue::I32(v as i32)
    } else if t == 3 {
        RuntimeValue::I64(v as i64)
    } else {
        RuntimeValue::I128(v)
    }
}

/// A product of values bounded by `m` in magnitude is bounded by `m * m`.
proof fn lemma_product_bounds(a: int, b: int, lo: int, hi: int) by (nonlinear_arith)
    requires
        lo <= a <= hi,
        lo <= b <= hi,
        lo <= 0 <= hi,
    ensures
        a * b <= hi * hi || a * b <= lo * lo,
        a * b >= lo * hi,
{
}

/// One tier up always holds a sum, a difference, or a product of two values
/// of the tier below, for both signednesses.
proof fn lemma_tier_room(t: int)
    requires
        0 <= t <= 3,
    ensures
        2 * umax(t) <= umax(t + 1),
        umax(t) * umax(t) <= umax(t + 1),
        imax(t) + imax(t) <= imax(t + 1),
        imin(t) + imin(t) >= imin(t + 1),
        imax(t) - imin(t) <= imax(t + 1),
        imin(t) - imax(t) >= imin(t + 1),
        imin(t) * imin(t) <= imax(t + 1),
        imax(t) * imax(t) <= imax(t + 1),
        imin(t) * imax(t) >= imin(t + 1),
        -imin(t) <= imax(t + 1),
{
    assert(0xff * 0xff <= 0xffff);
    assert(0xffff * 0xffff <= 0xffff_ffff);
    assert(0xffff_ffff * 0xffff_ffff <= 0xffff_ffff_ffff_ffff);
    assert(0xffff_ffff_ffff_ffff * 0xffff_ffff_ffff_ffff
        <= 0xffff_ffff_ffff_ffff_ffff_ffff_ffff_ffff);
    assert((-0x80) * (-0x80) <= 0x7fff);
    assert((-0x8000) * (-0x8000) <= 0x7fff_ffff);
    assert((-0x8000_0000) * (-0x8000_0000) <= 0x7fff_ffff_ffff_ffff);
    assert((-0x8000_0000_0000_0000) * (-0x8000_0000_0000_0000)
        <= 0x7fff_ffff_ffff_ffff_ffff_ffff_ffff_ffff);
    assert((-0x80) * 0x7f >= -0x8000);
    assert((-0x8000) * 0x7fff >= -0x8000_0000);
    assert((-0x8000_0000) * 0x7fff_ffff >= -0x8000_0000_0000_0000);
    assert((-0x8000_0000_0000_0000) * 0x7fff_ffff_ffff_ffff
        >= -0x8000_0000_0000_0000_0000_0000_0000_0000);
    assert(0x7f * 0x7f <= 0x7fff);
    assert(0x7fff * 0x7fff <= 0x7fff_ffff);
    assert(0x7fff_ffff * 0x7fff_ffff <= 0x7fff_ffff_ffff_ffff);
    assert(0x7fff_ffff_ffff_ffff * 0x7fff_ffff_ffff_ffff
        <= 0x7fff_ffff_ffff_ffff_ffff_ffff_ffff_ffff);
}

/// Truncating division on the widest signed width, by way of unsigned
/// magnitudes. The one quotient that does not fit, `i128::MIN / -1`, is
/// excluded.
fn trunc_div_i128(a: i128, b: i128) -> (q: i128)
    requires
        b != 0,
        !(a == i128::MIN && b == -1),
    ensures
        q as int == trunc_div(a as int, b as int),
{
    let ma: u128 = if a < 0 {
        ((-(a + 1)) as u128) + 1
    } else {
        a as u128
    };
    let mb: u128 = if b < 0 {
        ((-(b + 1)) as u128) + 1
    } else {
        b as u128
    };
    assert(ma as int == (if a < 0 { -(a as int) } else { a as int }));
    assert(mb as int == (if b < 0 { -(b as int) } else { b as int }));
    let mq = ma / mb;
    proof {
        vstd::arithmetic::div_mod::lemma_div_nonincreasing(ma as int, mb as int);
        vstd::arithmetic::div_mod::lemma_div_pos_is_pos(ma as int, mb as int);
    }
    if (a < 0) != (b < 0) {
        if mq == 0 {
            0
        } else if mq == 0x8000_0000_0000_0000_0000_0000_0000_0000u128 {
            i128::MIN
        } else {
            assert(mq < 0x8000_0000_0000_0000_0000_0000_0000_0000u128);
            -(mq as i128)
        }
    } else {
        assert(mq as int <= i128::MAX as int) by {
            if a == i128::MIN {
                // then b < 0 too, and b != -1 forces |b| >= 2, halving the
                // quotient below 2^126
                assert(mb >= 2);
                assert(ma as int / mb as int <= ma as int / 2) by {
                    vstd::arithmetic::div_mod::lemma_div_is_ordered_by_denominator(
                        ma as int,
                        2,
                        mb as int,
                    );
                }
            }
        }
        mq as i128
    }
}

/// One upflowing operation on two unsigned values of the same tier.
fn arith_unsigned(op: ArithOp, t: u8, va: u128, vb: u128) -> (r: Result<
    RuntimeValue,
    RuntimeError,
>)
    requires
        t <= 4,
        va as int <= umax(t as int),
        vb as int <= umax(t as int),
    ensures
        match expected_unsigned(op, t as int, va as int, vb as int) {
            Some(m) => r matches Ok(v) && v@ == m,
            None => r matches Err(e) && e.ty == RuntimeErrorTy::UnsupportedOperation,
        },
{
    match op {
        ArithOp::Add => {
            if t == 4 {
                match va.checked_add(vb) {
                    Some(w) => Ok(make_u_exec(4, w)),
                    None => Err(overflow_error()),
                }
            } else {
                proof {
                    lemma_tier_room(t as int);
                }
                let w = va + vb;
                let m = umax_exec(t);
                if w <= m {
                    Ok(make_u_exec(t, w))
                } else {
                    Ok(make_u_exec(t + 1, w))
                }
            }
        },
        ArithOp::Sub => {
            if va >= vb {
                Ok(make_u_exec(t, va - vb))
            } else {
                Err(overflow_error())
            }
        },
        ArithOp::Mult => {
            if t == 4 {
                match va.checked_mul(vb) {
                    Some(w) => Ok(make_u_exec(4, w)),
                    None => Err(overflow_error()),
                }
            } else {
                proof {
                    lemma_tier_room(t as int);
                    lemma_product_bounds(va as int, vb as int, 0, umax(t as int));
                    vstd::arithmetic::mul::lemma_mul_nonnegative(va as int, vb as int);
                }
                let w = va * vb;
                let m = umax_exec(t);
                if w <= m {
                    Ok(make_u_exec(t, w))
                } else {
                    Ok(make_u_exec(t + 1, w))
                }
            }
        },
        ArithOp::Div => {
            if vb == 0 {
                Err(division_error())
            } else {
                proof {
                    vstd::arithmetic::div_mod::lemma_div_nonincreasing(va as int, vb as int);
                    vstd::arithmetic::div_mod::lemma_div_pos_is_pos(va as int, vb as int);
                }
                Ok(make_u_exec(t, va / vb))
            }
        },
    }
}

/// What one signed same-tier operation is expected to yield: a model value,
/// or nothing where the operation is unsupported.
pub open spec fn expected_signed(op: ArithOp, t: int, va: int, vb: int) -> Option<ValueModel> {
    if op is Div && vb == 0 {
        None
    } else {
        upflow_i(t, op_int(op, va, vb))
    }
}

/// One upflowing operation on two signed values of the widest tier.
fn arith_signed_top(op: ArithOp, va: i128, vb: i128) -> (r: Result<RuntimeValue, RuntimeError>)
    ensures
        match expected_signed(op, 4, va as int, vb as int) {
            Some(m) => r matches Ok(v) && v@ == m,
            None => r matches Err(e) && e.ty == RuntimeErrorTy::UnsupportedOperation,
        },
{
    match op {
        ArithOp::Add => {
            match va.checked_add(vb) {
                Some(w) => Ok(make_i_exec(4, w)),
                None => Err(overflow_error()),
            }
        },
        ArithOp::Sub => {
            match va.checked_sub(vb) {
                Some(w) => Ok(make_i_exec(4, w)),
                None => Err(overflow_error()),
            }
        },
        ArithOp::Mult => {
            match va.checked_mul(vb) {
                Some(w) => Ok(make_i_exec(4, w)),
                None => Err(overflow_error()),
            }
        },
        ArithOp::Div => {
            if vb == 0 {
                Err(division_error())
            } else if va == i128::MIN && vb == -1 {
                proof {
                    lemma_trunc_div_in_tier(va as int, vb as int, imin(4), imax(4));
                }
                Err(overflow_error())
            } else {
                proof {
                    lemma_trunc_div_in_tier(va as int, vb as int, imin(4), imax(4));
                }
                Ok(make_i_exec(4, trunc_div_i128(va, vb)))
            }
        },
    }
}

/// One upflowing operation on two signed values of a tier below the widest.
#[verifier::rlimit(30)]
fn arith_signed_small(op: ArithOp, t: u8, va: i128, vb: i128) -> (r: Result<
    RuntimeValue,
    RuntimeError,
>)
    requires
        t <= 3,
        imin(t as int) <= va as int <= imax(t as int),
        imin(t as int) <= vb as int <= imax(t as int),
    ensures
        match expected_signed(op, t as int, va as int, vb as int) {
            Some(m) => r matches Ok(v) && v@ == m,
            None => r matches Err(e) && e.ty == RuntimeErrorTy::UnsupportedOperation,
        },
{
    proof {
        lemma_tier_room(t as int);
    }
    let (lo, hi) = ibounds_exec(t);
    let w: i128 = match op {
        ArithOp::Add => va + vb,
        ArithOp::Sub => va - vb,
        ArithOp::Mult => {
            proof {
                lemma_product_bounds(va as int, vb as int, imin(t as int), imax(t as int));
            }
            va * vb
        },
        ArithOp::Div => {
            if vb == 0 {
                return Err(division_error());
            }
            proof {
                lemma_trunc_div_in_tier(va as int, vb as int, imin(t as int), imax(t as int));
            }
            trunc_div_i128(va, vb)
        },
    };
    assert(imin(t as int + 1) <= w as int <= imax(t as int + 1));
    if lo <= w && w <= hi {
        Ok(make_i_exec(t, w))
    } else {
        Ok(make_i_exec(t + 1, w))
    }
}

/// One upflowing operation on two signed values of the same tier.
fn arith_signed(op: ArithOp, t: u8, va: i128, vb: i128) -> (r: Result<RuntimeValue, RuntimeError>)
    requires
        t <= 4,
        imin(t as int) <= va as int <= imax(t as int),
        imin(t as int) <= vb as int <= imax(t as int),
    ensures
        match expected_signed(op, t as int, va as int, vb as int) {
            Some(m) => r matches Ok(v) && v@ == m,
            None => r matches Err(e) && e.ty == RuntimeErrorTy::UnsupportedOperation,
        },
{
    if t == 4 {
        arith_signed_top(op, va, vb)
    } else {
        arith_signed_small(op, t, va, vb)
    }
}

/// A truncating quotient of two values of a signed tier stays within the
/// tier, except that the smallest value divided by minus one lands exactly
/// one past the top.
proof fn lemma_trunc_div_in_tier(a: int, b: int, lo: int, hi: int)
    requires
        lo <= a <= hi,
        lo <= b <= hi,
        lo < 0 < hi,
        hi == -lo - 1,
        b != 0,
    ensures
        lo <= trunc_div(a, b),
        trunc_div(a, b) <= -lo,
        trunc_div(a, b) == -lo ==> (a == lo && b == -1),
{
    let qa = if a < 0 {
        -a
    } else {
        a
    };
    let qb = if b < 0 {
        -b
    } else {
        b
    };
    vstd::arithmetic::div_mod::lemma_div_nonincreasing(qa, qb);
    vstd::arithmetic::div_mod::lemma_div_pos_is_pos(qa, qb);
    if qb >= 2 {
        assert(qa / qb <= qa / 2) by {
            vstd::arithmetic::div_mod::lemma_div_is_ordered_by_denominator(qa, 2, qb);
        }
        assert(qa / 2 <= -lo / 2) by {
            vstd::arithmetic::div_mod::lemma_div_is_ordered(qa, -lo, 2);
        }
    } else {
        assert(qb == 1);
        vstd::arithmetic::div_mod::lemma_div_basics(qa);
    }
}

/// The failure reported when a result cannot fit even the widest width.
fn overflow_error() -> (r: RuntimeError)
    ensures
        r.ty == RuntimeErrorTy::UnsupportedOperation,
{
    RuntimeError::new(
        RuntimeErrorTy::UnsupportedOperation,
        String::from_str("the result does not fit the widest width"),
    )
}

/// The failure reported for a zero divisor.
fn division_error() -> (r: RuntimeError)
    ensures
        r.ty == RuntimeErrorTy::UnsupportedOperation,
{
    RuntimeError::new(
        RuntimeErrorTy::UnsupportedOperation,
        String::from_str("division by zero is undefined"),
    )
}

/// The failure reported for an operand pair the operator does not take:
/// "Values of types 'a' and 'b' cannot be <verb>".
pub(crate) fn pair_error(
    ty: RuntimeErrorTy,
    a: &RuntimeValue,
    b: &RuntimeValue,
    verb: &'static str,
) -> (r: RuntimeError)
    ensures
        r.ty == ty,
{
    let msg = String::from_str("Values of types '").concat(a.name()).concat("' and '").concat(
        b.name(),
    ).concat("' cannot be ").concat(verb);
    RuntimeError::new(ty, msg)
}

/// The failure reported when a handle expected to name a string names
/// another payload kind.
fn not_a_string_error() -> (r: RuntimeError)
    ensures
        r.ty == RuntimeErrorTy::InvalidHandle,
{
    RuntimeError::new(
        RuntimeErrorTy::InvalidHandle,
        String::from_str("the handle does not name a string"),
    )
}

/// Joins two strings into a fresh heap slot and hands back its handle.
fn concat_alloc(sa: &String, sb: &String, gc: &mut Gc) -> (r: Result<RuntimeValue, RuntimeError>)
    ensures
        match concat_model(sa@, sb@, old(gc)@) {
            ArithEffect::Out(m, h) => r matches Ok(v) && v@ == m && final(gc)@ == h,
            ArithEffect::Fail(k) => r matches Err(e) && e.ty == k && final(gc)@ == old(gc)@,
        },
{
    let joined = sa.clone().concat(sb.as_str());
    match gc.allocate(HeapValue::Str(joined)) {
        Ok(id) => Ok(RuntimeValue::GcString(id)),
        Err(e) => Err(e),
    }
}

impl RuntimeValue {
    /// One upflowing operation, dispatched on the operand pair; `verb` names
    /// the operation inside failure messages.
    fn arith(self, other: Self, op: ArithOp, gc: &mut Gc, verb: &'static str) -> (r: Result<
        RuntimeValue,
        RuntimeError,
    >)
        ensures
            match arith_model(op, self@, other@, old(gc)@) {
                ArithEffect::Out(m, h) => r matches Ok(v) && v@ == m && final(gc)@ == h,
                ArithEffect::Fail(k) => r matches Err(e) && e.ty == k && final(gc)@ == old(gc)@,
            },
    {
        let a = self;
        let b = other;
        let a_none = matches!(&a, RuntimeValue::NoneType);
        let b_none = matches!(&b, RuntimeValue::NoneType);
        if a_none || b_none {
            return Err(pair_error(RuntimeErrorTy::NullVar, &a, &b, verb));
        }
        match (uclass_exec(&a), uclass_exec(&b)) {
            (Some((ta, va)), Some((tb, vb))) => {
                if ta == tb {
                    arith_unsigned(op, ta, va, vb)
                } else {
                    Err(pair_error(RuntimeErrorTy::IncompatibleTypes, &a, &b, verb))
                }
            },
            _ => {
                match (iclass_exec(&a), iclass_exec(&b)) {
                    (Some((ta, va)), Some((tb, vb))) => {
                        if ta == tb {
                            arith_signed(op, ta, va, vb)
                        } else {
                            Err(pair_error(RuntimeErrorTy::IncompatibleTypes, &a, &b, verb))
                        }
                    },
                    _ => {
                        match (&a, &b) {
                            (RuntimeValue::Str(sa), RuntimeValue::Str(sb)) => {
                                if op == ArithOp::Add {
                                    concat_alloc(sa, sb, gc)
                                } else {
                                    Err(pair_error(RuntimeErrorTy::IncompatibleTypes, &a, &b, verb))
                                }
                            },
                            (RuntimeValue::GcString(ia), RuntimeValue::GcString(ib)) => {
                                if op == ArithOp::Add {
                                    let pa = match gc.fetch(*ia) {
                                        Ok(HeapValue::Str(s)) => s,
                                        Ok(_) => {
                                            return Err(not_a_string_error());
                                        },
                                        Err(e) => {
                                            return Err(e);
                                        },
                                    };
                                    let pb = match gc.fetch(*ib) {
                                        Ok(HeapValue::Str(s)) => s,
                                        Ok(_) => {
                                            return Err(not_a_string_error());
                                        },
                                        Err(e) => {
                                            return Err(e);
                                        },
                                    };
                                    concat_alloc(&pa, &pb, gc)
                                } else {
                                    Err(pair_error(RuntimeErrorTy::IncompatibleTypes, &a, &b, verb))
                                }
                            },
                            (RuntimeValue::GcUint(_), RuntimeValue::GcUint(_))
                            | (RuntimeValue::GcInt(_), RuntimeValue::GcInt(_)) => Err(
                                pair_error(RuntimeErrorTy::UnsupportedOperation, &a, &b, verb),
                            ),
                            (RuntimeValue::F32(_), RuntimeValue::F32(_))
                            | (RuntimeValue::F64(_), RuntimeValue::F64(_)) => Err(
                                pair_error(RuntimeErrorTy::UnsupportedOperation, &a, &b, verb),
                            ),
                            _ => Err(pair_error(RuntimeErrorTy::IncompatibleTypes, &a, &b, verb)),
                        }
                    },
                }
            },
        }
    }

    /// Upflowing addition: a checked sum that widens on overflow, and the
    /// concatenation of two strings into a fresh heap slot.
    pub fn add_upflowing(self, other: Self, gc: &mut Gc) -> (r: Result<RuntimeValue, RuntimeError>)
        ensures
            match arith_model(ArithOp::Add, self@, other@, old(gc)@) {
                ArithEffect::Out(m, h) => r matches Ok(v) && v@ == m && final(gc)@ == h,
                ArithEffect::Fail(k) => r matches Err(e) && e.ty == k && final(gc)@ == old(gc)@,
            },
    {
        self.arith(other, ArithOp::Add, gc, "added")
    }

    /// Upflowing subtraction: a checked difference that widens on overflow.
    pub fn sub_upflowing(self, other: Self, gc: &mut Gc) -> (r: Result<RuntimeValue, RuntimeError>)
        ensures
            match arith_model(ArithOp::Sub, self@, other@, old(gc)@) {
                ArithEffect::Out(m, h) => r matches Ok(v) && v@ == m && final(gc)@ == h,
                ArithEffect::Fail(k) => r matches Err(e) && e.ty == k && final(gc)@ == old(gc)@,
            },
    {
        self.arith(other, ArithOp::Sub, gc, "subtracted")
    }

    /// Upflowing multiplication: a checked product that widens on overflow.
    pub fn mult_upflowing(self, other: Self, gc: &mut Gc) -> (r: Result<
        RuntimeValue,
        RuntimeError,
    >)
        ensures
            match arith_model(ArithOp::Mult, self@, other@, old(gc)@) {
                ArithEffect::Out(m, h) => r matches Ok(v) && v@ == m && final(gc)@ == h,
                ArithEffect::Fail(k) => r matches Err(e) && e.ty == k && final(gc)@ == old(gc)@,
            },
    {
        self.arith(other, ArithOp::Mult, gc, "multiplied")
    }

    /// Upflowing truncating division; a zero divisor is unsupported.
    pub fn div_upflowing(self, other: Self, gc: &mut Gc) -> (r: Result<RuntimeValue, RuntimeError>)
        ensures
            match arith_model(ArithOp::Div, self@, other@, old(gc)@) {
                ArithEffect::Out(m, h) => r matches Ok(v) && v@ == m && final(gc)@ == h,
                ArithEffect::Fail(k) => r matches Err(e) && e.ty == k && final(gc)@ == old(gc)@,
            },
    {
        self.arith(other, ArithOp::Div, gc, "divided")
    }
}

// ---------------------------------------------------------------------------
// Laws of upflowing arithmetic.
// ---------------------------------------------------------------------------

/// Law: for a same-signedness, same-width operand pair below the widest
/// width whose sum overflows that width, addition yields the value of the
/// next wider width holding the mathematically correct sum — it never wraps
/// silently. (At the widest width there is no wider tier: that sum is
/// reported as unsupported, which the upflow model also states.)
pub proof fn lemma_add_upflows(
    t: int,
    va: int,
    vb: int,
    a: ValueModel,
    b: ValueModel,
    heap: Seq<Option<HeapModel>>,
)
    requires
        0 <= t < 4,
        (uclass(a) == Some((t, va)) && uclass(b) == Some((t, vb))) || (iclass(a) == Some(
            (t, va),
        ) && iclass(b) == Some((t, vb))),
        uclass(a) is Some ==> va + vb > umax(t),
        iclass(a) is Some ==> (va + vb > imax(t) || va + vb < imin(t)),
    ensures
        uclass(a) is Some ==> arith_model(ArithOp::Add, a, b, heap) == ArithEffect::Out(
            make_u(t + 1, va + vb),
            heap,
        ),
        iclass(a) is Some ==> arith_model(ArithOp::Add, a, b, heap) == ArithEffect::Out(
            make_i(t + 1, va + vb),
            heap,
        ),
{
    lemma_tier_room(t);
    if uclass(a) is Some {
        assert(0 <= va <= umax(t) && 0 <= vb <= umax(t));
    } else {
        assert(imin(t) <= va <= imax(t) && imin(t) <= vb <= imax(t));
    }
}

/// Law: for a same-signedness, same-width operand pair whose sum fits that
/// width, addition stays at the original width and holds the exact sum.
pub proof fn lemma_add_stays(
    t: int,
    va: int,
    vb: int,
    a: ValueModel,
    b: ValueModel,
    heap: Seq<Option<HeapModel>>,
)
    requires
        0 <= t <= 4,
        (uclass(a) == Some((t, va)) && uclass(b) == Some((t, vb))) || (iclass(a) == Some(
            (t, va),
        ) && iclass(b) == Some((t, vb))),
        uclass(a) is Some ==> 0 <= va + vb <= umax(t),
        iclass(a) is Some ==> imin(t) <= va + vb <= imax(t),
    ensures
        uclass(a) is Some ==> arith_model(ArithOp::Add, a, b, heap) == ArithEffect::Out(
            make_u(t, va + vb),
            heap,
        ),
        iclass(a) is Some ==> arith_model(ArithOp::Add, a, b, heap) == ArithEffect::Out(
            make_i(t, va + vb),
            heap,
        ),
{
}

/// Law: comparing `None` with any value — on either side, itself included —
/// is a null-value failure, never `Ok(false)`.
pub proof fn lemma_none_equality(v: ValueModel, heap: Seq<Option<HeapModel>>)
    ensures
        eq_model(v, ValueModel::NoneType, heap) == Result::<bool, RuntimeErrorTy>::Err(
            RuntimeErrorTy::NullVar,
        ),
        eq_model(ValueModel::NoneType, v, heap) == Result::<bool, RuntimeErrorTy>::Err(
            RuntimeErrorTy::NullVar,
        ),
{
}

// ---------------------------------------------------------------------------
// Equality.
// ---------------------------------------------------------------------------

/// The unsigned big-integer digits a handle names, if it is live and names
/// such a payload.
pub open spec fn uint_payload(heap: Seq<Option<HeapModel>>, id: AllocId) -> Option<Seq<u32>> {
    match fetch_model(heap, id) {
        Some(HeapModel::Uint(d)) => Some(d),
        _ => None,
    }
}

/// The signed big-integer sign and digits a handle names, if it is live and
/// names such a payload.
pub open spec fn int_payload(heap: Seq<Option<HeapModel>>, id: AllocId) -> Option<(bool, Seq<u32>)> {
    match fetch_model(heap, id) {
        Some(HeapModel::Int(neg, d)) => Some((neg, d)),
        _ => None,
    }
}

/// The complete specification of value equality: native equality for
/// same-variant integer, boolean and pointer pairs; mathematical equality
/// for boxed big integers; a null-value failure when either side is `None`;
/// an unsupported gap for floats; and `false` for every other pair — a
/// deliberately lax default rather than an error.
pub open spec fn eq_model(a: ValueModel, b: ValueModel, heap: Seq<Option<HeapModel>>) -> Result<
    bool,
    RuntimeErrorTy,
> {
    match (a, b) {
        (ValueModel::Byte(l), ValueModel::Byte(r)) => Ok(l == r),
        (ValueModel::U16(l), ValueModel::U16(r)) => Ok(l == r),
        (ValueModel::U32(l), ValueModel::U32(r)) => Ok(l == r),
        (ValueModel::U64(l), ValueModel::U64(r)) => Ok(l == r),
        (ValueModel::U128(l), ValueModel::U128(r)) => Ok(l == r),
        (ValueModel::GcUint(ia), ValueModel::GcUint(ib)) => {
            match (uint_payload(heap, ia), uint_payload(heap, ib)) {
                (Some(da), Some(db)) => Ok(limbs_value(da) == limbs_value(db)),
                _ => Err(RuntimeErrorTy::InvalidHandle),
            }
        },
        (ValueModel::IByte(l), ValueModel::IByte(r)) => Ok(l == r),
        (ValueModel::I16(l), ValueModel::I16(r)) => Ok(l == r),
        (ValueModel::I32(l), ValueModel::I32(r)) => Ok(l == r),
        (ValueModel::I64(l), ValueModel::I64(r)) => Ok(l == r),
        (ValueModel::I128(l), ValueModel::I128(r)) => Ok(l == r),
        (ValueModel::GcInt(ia), ValueModel::GcInt(ib)) => {
            match (int_payload(heap, ia), int_payload(heap, ib)) {
                (Some((na, da)), Some((nb, db))) => Ok(
                    signed_value(na, da) == signed_value(nb, db),
                ),
                _ => Err(RuntimeErrorTy::InvalidHandle),
            }
        },
        (ValueModel::F32(_), ValueModel::F32(_)) => Err(RuntimeErrorTy::UnsupportedOperation),
        (ValueModel::F64(_), ValueModel::F64(_)) => Err(RuntimeErrorTy::UnsupportedOperation),
        (ValueModel::Pointer(l), ValueModel::Pointer(r)) => Ok(l == r),
        (ValueModel::Bool(l), ValueModel::Bool(r)) => Ok(l == r),
        _ => {
            if a is NoneType || b is NoneType {
                Err(RuntimeErrorTy::NullVar)
            } else {
                Ok(false)
            }
        },
    }
}

/// The failure reported when a handle expected to name a big integer names
/// another payload kind.
fn not_an_integer_error() -> (r: RuntimeError)
    ensures
        r.ty == RuntimeErrorTy::InvalidHandle,
{
    RuntimeError::new(
        RuntimeErrorTy::InvalidHandle,
        String::from_str("the handle does not name a big integer"),
    )
}

impl RuntimeValue {
    /// Value equality, as `eq_model` specifies it. Comparing `None` with
    /// anything — itself included — is a null-value failure, never `false`.
    pub fn is_equal(self, other: Self, gc: &Gc) -> (r: Result<bool, RuntimeError>)
        ensures
            match eq_model(self@, other@, gc@) {
                Ok(v) => r matches Ok(b) && b == v,
                Err(k) => r matches Err(e) && e.ty == k,
            },
    {
        match (&self, &other) {
            (RuntimeValue::Byte(l), RuntimeValue::Byte(r)) => Ok(l == r),
            (RuntimeValue::U16(l), RuntimeValue::U16(r)) => Ok(l == r),
            (RuntimeValue::U32(l), RuntimeValue::U32(r)) => Ok(l == r),
            (RuntimeValue::U64(l), RuntimeValue::U64(r)) => Ok(l == r),
            (RuntimeValue::U128(l), RuntimeValue::U128(r)) => Ok(l == r),
            (RuntimeValue::GcUint(ia), RuntimeValue::GcUint(ib)) => {
                let da = match gc.fetch(*ia) {
                    Ok(HeapValue::Uint(d)) => d,
                    Ok(_) => {
                        return Err(not_an_integer_error());
                    },
                    Err(e) => {
                        return Err(e);
                    },
                };
                let db = match gc.fetch(*ib) {
                    Ok(HeapValue::Uint(d)) => d,
                    Ok(_) => {
                        return Err(not_an_integer_error());
                    },
                    Err(e) => {
                        return Err(e);
                    },
                };
                Ok(crate::bigint::limbs_eq(&da, &db))
            },
            (RuntimeValue::IByte(l), RuntimeValue::IByte(r)) => Ok(l == r),
            (RuntimeValue::I16(l), RuntimeValue::I16(r)) => Ok(l == r),
            (RuntimeValue::I32(l), RuntimeValue::I32(r)) => Ok(l == r),
            (RuntimeValue::I64(l), RuntimeValue::I64(r)) => Ok(l == r),
            (RuntimeValue::I128(l), RuntimeValue::I128(r)) => Ok(l == r),
            (RuntimeValue::GcInt(ia), RuntimeValue::GcInt(ib)) => {
                let (na, da) = match gc.fetch(*ia) {
                    Ok(HeapValue::Int(neg, d)) => (neg, d),
                    Ok(_) => {
                        return Err(not_an_integer_error());
                    },
                    Err(e) => {
                        return Err(e);
                    },
                };
                let (nb, db) = match gc.fetch(*ib) {
                    Ok(HeapValue::Int(neg, d)) => (neg, d),
                    Ok(_) => {
                        return Err(not_an_integer_error());
                    },
                    Err(e) => {
                        return Err(e);
                    },
                };
                Ok(crate::bigint::signed_eq(na, &da, nb, &db))
            },
            (RuntimeValue::F32(_), RuntimeValue::F32(_)) => Err(
                pair_error(RuntimeErrorTy::UnsupportedOperation, &self, &other, "compared"),
            ),
            (RuntimeValue::F64(_), RuntimeValue::F64(_)) => Err(
                pair_error(RuntimeErrorTy::UnsupportedOperation, &self, &other, "compared"),
            ),
            (RuntimeValue::Pointer(l), RuntimeValue::Pointer(r)) => Ok(l == r),
            (RuntimeValue::Bool(l), RuntimeValue::Bool(r)) => Ok(l == r),
            _ => {
                let a_none = matches!(&self, RuntimeValue::NoneType);
                let b_none = matches!(&other, RuntimeValue::NoneType);
                if a_none || b_none {
                    Err(pair_error(RuntimeErrorTy::NullVar, &self, &other, "equal"))
                } else {
                    Ok(false)
                }
            },
        }
    }
}

// ---------------------------------------------------------------------------
// Bitwise operations.
// ---------------------------------------------------------------------------

/// The three binary bitwise operators.
#[derive(Clone, Copy, Debug, PartialEq, Eq, Structural)]
pub enum BitOp {
    Or,
    Xor,
    And,
}

/// The complete specification of the binary bitwise operators: the native
/// operator on same-width integer pairs (bitwise operations cannot overflow,
/// so nothing widens); boxed big integers and floats are unsupported gaps; a
/// null-value failure when either side is `None`; an incompatible-types
/// failure otherwise.
pub open spec fn bitop_model(op: BitOp, a: ValueModel, b: ValueModel) -> Result<
    ValueModel,
    RuntimeErrorTy,
> {
    match (a, b) {
        (ValueModel::Byte(l), ValueModel::Byte(r)) => Ok(ValueModel::Byte(bits_u8(op, l, r))),
        (ValueModel::U16(l), ValueModel::U16(r)) => Ok(ValueModel::U16(bits_u16(op, l, r))),
        (ValueModel::U32(l), ValueModel::U32(r)) => Ok(ValueModel::U32(bits_u32(op, l, r))),
        (ValueModel::U64(l), ValueModel::U64(r)) => Ok(ValueModel::U64(bits_u64(op, l, r))),
        (ValueModel::U128(l), ValueModel::U128(r)) => Ok(ValueModel::U128(bits_u128(op, l, r))),
        (ValueModel::IByte(l), ValueModel::IByte(r)) => Ok(ValueModel::IByte(bits_i8(op, l, r))),
        (ValueModel::I16(l), ValueModel::I16(r)) => Ok(ValueModel::I16(bits_i16(op, l, r))),
        (ValueModel::I32(l), ValueModel::I32(r)) => Ok(ValueModel::I32(bits_i32(op, l, r))),
        (ValueModel::I64(l), ValueModel::I64(r)) => Ok(ValueModel::I64(bits_i64(op, l, r))),
        (ValueModel::I128(l), ValueModel::I128(r)) => Ok(ValueModel::I128(bits_i128(op, l, r))),
        (ValueModel::GcUint(_), ValueModel::GcUint(_)) => Err(RuntimeErrorTy::UnsupportedOperation),
        (ValueModel::GcInt(_), ValueModel::GcInt(_)) => Err(RuntimeErrorTy::UnsupportedOperation),
        (ValueModel::F32(_), ValueModel::F32(_)) => Err(RuntimeErrorTy::UnsupportedOperation),
        (ValueModel::F64(_), ValueModel::F64(_)) => Err(RuntimeErrorTy::UnsupportedOperation),
        _ => {
            if a is NoneType || b is NoneType {
                Err(RuntimeErrorTy::NullVar)
            } else {
                Err(RuntimeErrorTy::IncompatibleTypes)
            }
        },
    }
}

pub open spec fn bits_u8(op: BitOp, l: u8, r: u8) -> u8 {
    match op {
        BitOp::Or => l | r,
        BitOp::Xor => l ^ r,
        BitOp::And => l & r,
    }
}

pub open spec fn bits_u16(op: BitOp, l: u16, r: u16) -> u16 {
    match op {
        BitOp::Or => l | r,
        BitOp::Xor => l ^ r,
        BitOp::And => l & r,
    }
}

pub open spec fn bits_u32(op: BitOp, l: u32, r: u32) -> u32 {
    match op {
        BitOp::Or => l | r,
        BitOp::Xor => l ^ r,
        BitOp::And => l & r,
    }
}

pub open spec fn bits_u64(op: BitOp, l: u64, r: u64) -> u64 {
    match op {
        BitOp::Or => l | r,
        BitOp::Xor => l ^ r,
        BitOp::And => l & r,
    }
}

pub open spec fn bits_u128(op: BitOp, l: u128, r: u128) -> u128 {
    match op {
        BitOp::Or => l | r,
        BitOp::Xor => l ^ r,
        BitOp::And => l & r,
    }
}

pub open spec fn bits_i8(op: BitOp, l: i8, r: i8) -> i8 {
    match op {
        BitOp::Or => l | r,
        BitOp::Xor => l ^ r,
        BitOp::And => l & r,
    }
}

pub open spec fn bits_i16(op: BitOp, l: i16, r: i16) -> i16 {
    match op {
        BitOp::Or => l | r,
        BitOp::Xor => l ^ r,
        BitOp::And => l & r,
    }
}

pub open spec fn bits_i32(op: BitOp, l: i32, r: i32) -> i32 {
    match op {
        BitOp::Or => l | r,
        BitOp::Xor => l ^ r,
        BitOp::And => l & r,
    }
}

pub open spec fn bits_i64(op: BitOp, l: i64, r: i64) -> i64 {
    match op {
        BitOp::Or => l | r,
        BitOp::Xor => l ^ r,
        BitOp::And => l & r,
    }
}

pub open spec fn bits_i128(op: BitOp, l: i128, r: i128) -> i128 {
    match op {
        BitOp::Or => l | r,
        BitOp::Xor => l ^ r,
        BitOp::And => l & r,
    }
}

/// The complete specification of bitwise complement: the native operator on
/// the fixed-width integers; boxed big integers and floats are unsupported
/// gaps; `None` is a null-value failure; every other variant has no
/// complement and is an incompatible-types failure, like the binary
/// bitwise family's mismatches.
pub open spec fn bitnot_model(a: ValueModel) -> Result<ValueModel, RuntimeErrorTy> {
    match a {
        ValueModel::Byte(n) => Ok(ValueModel::Byte(!n)),
        ValueModel::U16(n) => Ok(ValueModel::U16(!n)),
        ValueModel::U32(n) => Ok(ValueModel::U32(!n)),
        ValueModel::U64(n) => Ok(ValueModel::U64(!n)),
        ValueModel::U128(n) => Ok(ValueModel::U128(!n)),
        ValueModel::IByte(n) => Ok(ValueModel::IByte(!n)),
        ValueModel::I16(n) => Ok(ValueModel::I16(!n)),
        ValueModel::I32(n) => Ok(ValueModel::I32(!n)),
        ValueModel::I64(n) => Ok(ValueModel::I64(!n)),
        ValueModel::I128(n) => Ok(ValueModel::I128(!n)),
        ValueModel::GcUint(_) => Err(RuntimeErrorTy::UnsupportedOperation),
        ValueModel::GcInt(_) => Err(RuntimeErrorTy::UnsupportedOperation),
        ValueModel::F32(_) => Err(RuntimeErrorTy::UnsupportedOperation),
        ValueModel::F64(_) => Err(RuntimeErrorTy::UnsupportedOperation),
        ValueModel::NoneType => Err(RuntimeErrorTy::NullVar),
        _ => Err(RuntimeErrorTy::IncompatibleTypes),
    }
}

/// The failure reported for a value bitwise operators do not take.
fn unary_error(ty: RuntimeErrorTy, a: &RuntimeValue) -> (r: RuntimeError)
    ensures
        r.ty == ty,
{
    let msg = String::from_str("Cannot apply the bitwise not to the type '").concat(
        a.name(),
    ).concat("'");
    RuntimeError::new(ty, msg)
}

impl RuntimeValue {
    /// One binary bitwise operation, dispatched on the operand pair; `verb`
    /// names the operation inside failure messages.
    fn bitop(self, other: Self, op: BitOp, verb: &'static str) -> (r: Result<
        RuntimeValue,
        RuntimeError,
    >)
        ensures
            match bitop_model(op, self@, other@) {
                Ok(m) => r matches Ok(v) && v@ == m,
                Err(k) => r matches Err(e) && e.ty == k,
            },
    {
        match (&self, &other) {
            (RuntimeValue::Byte(l), RuntimeValue::Byte(r)) => Ok(
                RuntimeValue::Byte(bits_u8_exec(op, *l, *r)),
            ),
            (RuntimeValue::U16(l), RuntimeValue::U16(r)) => Ok(
                RuntimeValue::U16(bits_u16_exec(op, *l, *r)),
            ),
            (RuntimeValue::U32(l), RuntimeValue::U32(r)) => Ok(
                RuntimeValue::U32(bits_u32_exec(op, *l, *r)),
            ),
            (RuntimeValue::U64(l), RuntimeValue::U64(r)) => Ok(
                RuntimeValue::U64(bits_u64_exec(op, *l, *r)),
            ),
            (RuntimeValue::U128(l), RuntimeValue::U128(r)) => Ok(
                RuntimeValue::U128(bits_u128_exec(op, *l, *r)),
            ),
            (RuntimeValue::IByte(l), RuntimeValue::IByte(r)) => Ok(
                RuntimeValue::IByte(bits_i8_exec(op, *l, *r)),
            ),
            (RuntimeValue::I16(l), RuntimeValue::I16(r)) => Ok(
                RuntimeValue::I16(bits_i16_exec(op, *l, *r)),
            ),
            (RuntimeValue::I32(l), RuntimeValue::I32(r)) => Ok(
                RuntimeValue::I32(bits_i32_exec(op, *l, *r)),
            ),
            (RuntimeValue::I64(l), RuntimeValue::I64(r)) => Ok(
                RuntimeValue::I64(bits_i64_exec(op, *l, *r)),
            ),
            (RuntimeValue::I128(l), RuntimeValue::I128(r)) => Ok(
                RuntimeValue::I128(bits_i128_exec(op, *l, *r)),
            ),
            (RuntimeValue::GcUint(_), RuntimeValue::GcUint(_))
            | (RuntimeValue::GcInt(_), RuntimeValue::GcInt(_)) => Err(
                pair_error(RuntimeErrorTy::UnsupportedOperation, &self, &other, verb),
            ),
            (RuntimeValue::F32(_), RuntimeValue::F32(_))
            | (RuntimeValue::F64(_), RuntimeValue::F64(_)) => Err(
                pair_error(RuntimeErrorTy::UnsupportedOperation, &self, &other, verb),
            ),
            _ => {
                let a_none = matches!(&self, RuntimeValue::NoneType);
                let b_none = matches!(&other, RuntimeValue::NoneType);
                if a_none || b_none {
                    Err(pair_error(RuntimeErrorTy::NullVar, &self, &other, verb))
                } else {
                    Err(pair_error(RuntimeErrorTy::IncompatibleTypes, &self, &other, verb))
                }
            },
        }
    }

    /// Bitwise or on same-width integer pairs.
    pub fn bit_or(self, other: Self, gc: &mut Gc) -> (r: Result<RuntimeValue, RuntimeError>)
        ensures
            final(gc)@ == old(gc)@,
            match bitop_model(BitOp::Or, self@, other@) {
                Ok(m) => r matches Ok(v) && v@ == m,
                Err(k) => r matches Err(e) && e.ty == k,
            },
    {
        self.bitop(other, BitOp::Or, "bit ord")
    }

    /// Bitwise exclusive or on same-width integer pairs.
    pub fn bit_xor(self, other: Self, gc: &mut Gc) -> (r: Result<RuntimeValue, RuntimeError>)
        ensures
            final(gc)@ == old(gc)@,
            match bitop_model(BitOp::Xor, self@, other@) {
                Ok(m) => r matches Ok(v) && v@ == m,
                Err(k) => r matches Err(e) && e.ty == k,
            },
    {
        self.bitop(other, BitOp::Xor, "bit xored")
    }

    /// Bitwise and on same-width integer pairs.
    pub fn bit_and(self, other: Self, gc: &mut Gc) -> (r: Result<RuntimeValue, RuntimeError>)
        ensures
            final(gc)@ == old(gc)@,
            match bitop_model(BitOp::And, self@, other@) {
                Ok(m) => r matches Ok(v) && v@ == m,
                Err(k) => r matches Err(e) && e.ty == k,
            },
    {
        self.bitop(other, BitOp::And, "bit anded")
    }

    /// Bitwise complement on the fixed-width integers.
    pub fn bit_not(self, gc: &mut Gc) -> (r: Result<RuntimeValue, RuntimeError>)
        ensures
            final(gc)@ == old(gc)@,
            match bitnot_model(self@) {
                Ok(m) => r matches Ok(v) && v@ == m,
                Err(k) => r matches Err(e) && e.ty == k,
            },
    {
        match &self {
            RuntimeValue::Byte(n) => Ok(RuntimeValue::Byte(!*n)),
            RuntimeValue::U16(n) => Ok(RuntimeValue::U16(!*n)),
            RuntimeValue::U32(n) => Ok(RuntimeValue::U32(!*n)),
            RuntimeValue::U64(n) => Ok(RuntimeValue::U64(!*n)),
            RuntimeValue::U128(n) => Ok(RuntimeValue::U128(!*n)),
            RuntimeValue::IByte(n) => Ok(RuntimeValue::IByte(!*n)),
            RuntimeValue::I16(n) => Ok(RuntimeValue::I16(!*n)),
            RuntimeValue::I32(n) => Ok(RuntimeValue::I32(!*n)),
            RuntimeValue::I64(n) => Ok(RuntimeValue::I64(!*n)),
            RuntimeValue::I128(n) => Ok(RuntimeValue::I128(!*n)),
            RuntimeValue::GcUint(_) | RuntimeValue::GcInt(_) => Err(
                unary_error(RuntimeErrorTy::UnsupportedOperation, &self),
            ),
            RuntimeValue::F32(_) | RuntimeValue::F64(_) => Err(
                unary_error(RuntimeErrorTy::UnsupportedOperation, &self),
            ),
            RuntimeValue::NoneType => Err(unary_error(RuntimeErrorTy::NullVar, &self)),
            _ => Err(unary_error(RuntimeErrorTy::IncompatibleTypes, &self)),
        }
    }
}

fn bits_u8_exec(op: BitOp, l: u8, r: u8) -> (res: u8)
    ensures
        res == bits_u8(op, l, r),
{
    match op {
        BitOp::Or => l | r,
        BitOp::Xor => l ^ r,
        BitOp::And => l & r,
    }
}

fn bits_u16_exec(op: BitOp, l: u16, r: u16) -> (res: u16)
    ensures
        res == bits_u16(op, l, r),
{
    match op {
        BitOp::Or => l | r,
        BitOp::Xor => l ^ r,
        BitOp::And => l & r,
    }
}

fn bits_u32_exec(op: BitOp, l: u32, r: u32) -> (res: u32)
    ensures
        res == bits_u32(op, l, r),
{
    match op {
        BitOp::Or => l | r,
        BitOp::Xor => l ^ r,
        BitOp::And => l & r,
    }
}

fn bits_u64_exec(op: BitOp, l: u64, r: u64) -> (res: u64)
    ensures
        res == bits_u64(op, l, r),
{
    match op {
        BitOp::Or => l | r,
        BitOp::Xor => l ^ r,
        BitOp::And => l & r,
    }
}

fn bits_u128_exec(op: BitOp, l: u128, r: u128) -> (res: u128)
    ensures
        res == bits_u128(op, l, r),
{
    match op {
        BitOp::Or => l | r,
        BitOp::Xor => l ^ r,
        BitOp::And => l & r,
    }
}

fn bits_i8_exec(op: BitOp, l: i8, r: i8) -> (res: i8)
    ensures
        res == bits_i8(op, l, r),
{
    match op {
        BitOp::Or => l | r,
        BitOp::Xor => l ^ r,
        BitOp::And => l & r,
    }
}

fn bits_i16_exec(op: BitOp, l: i16, r: i16) -> (res: i16)
    ensures
        res == bits_i16(op, l, r),
{
    match op {
        BitOp::Or => l | r,
        BitOp::Xor => l ^ r,
        BitOp::And => l & r,
    }
}

fn bits_i32_exec(op: BitOp, l: i32, r: i32) -> (res: i32)
    ensures
        res == bits_i32(op, l, r),
{
    match op {
        BitOp::Or => l | r,
        BitOp::Xor => l ^ r,
        BitOp::And => l & r,
    }
}

fn bits_i64_exec(op: BitOp, l: i64, r: i64) -> (res: i64)
    ensures
        res == bits_i64(op, l, r),
{
    match op {
        BitOp::Or => l | r,
        BitOp::Xor => l ^ r,
        BitOp::And => l & r,
    }
}

fn bits_i128_exec(op: BitOp, l: i128, r: i128) -> (res: i128)
    ensures
        res == bits_i128(op, l, r),
{
    match op {
        BitOp::Or => l | r,
        BitOp::Xor => l ^ r,
        BitOp::And => l & r,
    }
}

// ---------------------------------------------------------------------------
// Rendering and release.
// ---------------------------------------------------------------------------

/// The complete specification of `to_string`: decimal for the fixed-width
/// integers and for pointers (rendered as their slot index), the payload for
/// strings, decimal of the denoted value for boxed big integers, the words of
/// booleans and the two sentinels, and an unsupported gap for floats.
pub open spec fn string_model(a: ValueModel, heap: Seq<Option<HeapModel>>) -> Result<
    Seq<char>,
    RuntimeErrorTy,
> {
    match a {
        ValueModel::Byte(n) => Ok(dec_chars(n as nat)),
        ValueModel::U16(n) => Ok(dec_chars(n as nat)),
        ValueModel::U32(n) => Ok(dec_chars(n as nat)),
        ValueModel::U64(n) => Ok(dec_chars(n as nat)),
        ValueModel::U128(n) => Ok(dec_chars(n as nat)),
        ValueModel::IByte(n) => Ok(dec_chars_int(n as int)),
        ValueModel::I16(n) => Ok(dec_chars_int(n as int)),
        ValueModel::I32(n) => Ok(dec_chars_int(n as int)),
        ValueModel::I64(n) => Ok(dec_chars_int(n as int)),
        ValueModel::I128(n) => Ok(dec_chars_int(n as int)),
        ValueModel::F32(_) => Err(RuntimeErrorTy::UnsupportedOperation),
        ValueModel::F64(_) => Err(RuntimeErrorTy::UnsupportedOperation),
        ValueModel::Bool(b) => Ok(
            if b {
                "true"@
            } else {
                "false"@
            },
        ),
        ValueModel::Pointer(id) => Ok(dec_chars(id.0 as nat)),
        ValueModel::Char(c) => Ok(seq![c]),
        ValueModel::Str(s) => Ok(s),
        ValueModel::GcString(id) => match string_payload(heap, id) {
            Some(s) => Ok(s),
            None => Err(RuntimeErrorTy::InvalidHandle),
        },
        ValueModel::GcUint(id) => match uint_payload(heap, id) {
            Some(d) => Ok(dec_chars(limbs_value(d))),
            None => Err(RuntimeErrorTy::InvalidHandle),
        },
        ValueModel::GcInt(id) => match int_payload(heap, id) {
            Some((neg, d)) => Ok(dec_chars_int(signed_value(neg, d))),
            None => Err(RuntimeErrorTy::InvalidHandle),
        },
        ValueModel::Null => Ok("null"@),
        ValueModel::NoneType => Ok("NoneType"@),
    }
}

/// What releasing a value leaves in the heap: boxed values release their
/// slot (a dead handle is an invalid-handle failure); everything else leaves
/// the heap alone.
pub open spec fn drop_value_model(a: ValueModel, heap: Seq<Option<HeapModel>>) -> Result<
    Seq<Option<HeapModel>>,
    RuntimeErrorTy,
> {
    match a {
        ValueModel::GcUint(id) | ValueModel::GcInt(id) | ValueModel::GcString(id) => {
            if crate::gc::gc_live(heap, id) {
                Ok(crate::gc::drop_model(heap, id))
            } else {
                Err(RuntimeErrorTy::InvalidHandle)
            }
        },
        _ => Ok(heap),
    }
}

impl RuntimeValue {
    /// Renders the value as text, as `string_model` specifies it.
    pub fn to_string(&self, gc: &Gc) -> (r: Result<String, RuntimeError>)
        ensures
            match string_model(self@, gc@) {
                Ok(s) => r matches Ok(out) && out@ == s,
                Err(k) => r matches Err(e) && e.ty == k,
            },
    {
        match self {
            RuntimeValue::Byte(n) => Ok(crate::text::dec_string_u128(*n as u128)),
            RuntimeValue::U16(n) => Ok(crate::text::dec_string_u128(*n as u128)),
            RuntimeValue::U32(n) => Ok(crate::text::dec_string_u128(*n as u128)),
            RuntimeValue::U64(n) => Ok(crate::text::dec_string_u128(*n as u128)),
            RuntimeValue::U128(n) => Ok(crate::text::dec_string_u128(*n)),
            RuntimeValue::IByte(n) => Ok(crate::text::dec_string_i128(*n as i128)),
            RuntimeValue::I16(n) => Ok(crate::text::dec_string_i128(*n as i128)),
            RuntimeValue::I32(n) => Ok(crate::text::dec_string_i128(*n as i128)),
            RuntimeValue::I64(n) => Ok(crate::text::dec_string_i128(*n as i128)),
            RuntimeValue::I128(n) => Ok(crate::text::dec_string_i128(*n)),
            RuntimeValue::F32(_) | RuntimeValue::F64(_) => Err(
                unary_error(RuntimeErrorTy::UnsupportedOperation, self),
            ),
            RuntimeValue::Bool(b) => Ok(
                if *b {
                    "true".to_owned()
                } else {
                    "false".to_owned()
                },
            ),
            RuntimeValue::Pointer(id) => Ok(crate::text::dec_string_u128(id.0 as u128)),
            RuntimeValue::Char(c) => {
                let mut s = String::new();
                crate::text::push_char(&mut s, *c);
                proof {
                    assert(s@ =~= seq![*c]);
                }
                Ok(s)
            },
            RuntimeValue::Str(s) => Ok(s.clone()),
            RuntimeValue::GcString(id) => {
                match gc.fetch(*id) {
                    Ok(HeapValue::Str(s)) => Ok(s),
                    Ok(_) => Err(not_a_string_error()),
                    Err(e) => Err(e),
                }
            },
            RuntimeValue::GcUint(id) => {
                match gc.fetch(*id) {
                    Ok(HeapValue::Uint(d)) => Ok(crate::bigint::biguint_to_decimal(&d)),
                    Ok(_) => Err(not_an_integer_error()),
                    Err(e) => Err(e),
                }
            },
            RuntimeValue::GcInt(id) => {
                match gc.fetch(*id) {
                    Ok(HeapValue::Int(neg, d)) => Ok(crate::bigint::bigint_to_decimal(neg, &d)),
                    Ok(_) => Err(not_an_integer_error()),
                    Err(e) => Err(e),
                }
            },
            RuntimeValue::Null => Ok("null".to_owned()),
            RuntimeValue::NoneType => Ok("NoneType".to_owned()),
        }
    }

    /// Releases the value: a boxed value's heap slot is released, and the
    /// value itself becomes the `None` tombstone. On a dead handle nothing
    /// changes and the failure reports an invalid handle.
    pub fn drop(&mut self, gc: &mut Gc) -> (r: Result<(), RuntimeError>)
        ensures
            match drop_value_model(old(self)@, old(gc)@) {
                Ok(h) => {
                    &&& r is Ok
                    &&& final(self)@ == ValueModel::NoneType
                    &&& final(gc)@ == h
                },
                Err(k) => {
                    &&& r matches Err(e) && e.ty == k
                    &&& final(self)@ == old(self)@
                    &&& final(gc)@ == old(gc)@
                },
            },
    {
        let id_opt = match &*self {
            RuntimeValue::GcUint(id) => Some(*id),
            RuntimeValue::GcInt(id) => Some(*id),
            RuntimeValue::GcString(id) => Some(*id),
            _ => None,
        };
        if let Some(id) = id_opt {
            match gc.drop(id) {
                Ok(()) => {},
                Err(e) => {
                    return Err(e);
                },
            }
        }
        *self = RuntimeValue::NoneType;
        Ok(())
    }
}

} // verus!

