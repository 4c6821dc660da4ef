//! The fixed binary encoding of individual values: a one-byte discriminant
//! tag followed by the little-endian fixed-width payload; strings carry
//! their raw UTF-8 bytes with no length prefix. This is the unit the
//! surrounding container format persists; the container framing itself is
//! produced and consumed outside the core. Heap-boxed values have no byte
//! encoding and are rejected outright, never silently mis-encoded.

use vstd::prelude::*;
use vstd::bytes::{
    spec_u128_from_le_bytes, spec_u128_to_le_bytes, spec_u16_from_le_bytes, spec_u16_to_le_bytes,
    spec_u32_from_le_bytes, spec_u32_to_le_bytes, spec_u64_from_le_bytes, spec_u64_to_le_bytes,
    u128_from_le_bytes, u128_to_le_bytes, u16_from_le_bytes, u16_to_le_bytes, u32_from_le_bytes,
    u32_to_le_bytes, u64_from_le_bytes, u64_to_le_bytes,
};
use vstd::slice::{slice_index_get, slice_subrange, slice_to_vec};
use vstd::string::StringExecFns;
use vstd::utf8::{decode_utf8, encode_utf8, is_scalar, valid_utf8};

use crate::error::{RuntimeError, RuntimeErrorTy};
use crate::gc::AllocId;
use crate::text::{char_from_u32, utf8_to_string};
use crate::value::{RuntimeValue, ValueModel};

verus! {

/// The byte encoding of a value: a tag byte, then the little-endian
/// payload. Heap-boxed values (big integers, collector-owned strings) have
/// none.
pub open spec fn encode_model(m: ValueModel) -> Option<Seq<u8>> {
    match m {
        ValueModel::NoneType => Some(seq![0x00u8]),
        ValueModel::Null => Some(seq![0x01u8]),
        ValueModel::Byte(n) => Some(seq![0x02u8, n]),
        ValueModel::U16(n) => Some(seq![0x03u8] + spec_u16_to_le_bytes(n)),
        ValueModel::U32(n) => Some(seq![0x04u8] + spec_u32_to_le_bytes(n)),
        ValueModel::U64(n) => Some(seq![0x05u8] + spec_u64_to_le_bytes(n)),
        ValueModel::U128(n) => Some(seq![0x06u8] + spec_u128_to_le_bytes(n)),
        ValueModel::IByte(n) => Some(seq![0x07u8, n as u8]),
        ValueModel::I16(n) => Some(seq![0x08u8] + spec_u16_to_le_bytes(n as u16)),
        ValueModel::I32(n) => Some(seq![0x09u8] + spec_u32_to_le_bytes(n as u32)),
        ValueModel::I64(n) => Some(seq![0x0Au8] + spec_u64_to_le_bytes(n as u64)),
        ValueModel::I128(n) => Some(seq![0x0Bu8] + spec_u128_to_le_bytes(n as u128)),
        ValueModel::F32(bits) => Some(seq![0x0Cu8] + spec_u32_to_le_bytes(bits)),
        ValueModel::F64(bits) => Some(seq![0x0Du8] + spec_u64_to_le_bytes(bits)),
        ValueModel::Pointer(id) => Some(seq![0x0Eu8] + spec_u64_to_le_bytes(id.0 as u64)),
        ValueModel::Bool(b) => Some(
            seq![
                0x0Fu8,
                if b {
                    1u8
                } else {
                    0u8
                },
            ],
        ),
        ValueModel::Char(c) => Some(seq![0x10u8] + spec_u32_to_le_bytes(c as u32)),
        ValueModel::Str(s) => Some(seq![0x11u8] + encode_utf8(s)),
        ValueModel::GcUint(_) => None,
        ValueModel::GcInt(_) => None,
        ValueModel::GcString(_) => None,
    }
}

/// What decoding a byte buffer yields: the tagged value whose payload fills
/// the buffer exactly, or a decode failure (an invalid-instruction kind) for
/// an empty buffer, an unknown tag, a payload of the wrong width, an
/// out-of-range codepoint or pointer, or ill-formed UTF-8.
pub open spec fn decode_model(b: Seq<u8>) -> Result<ValueModel, RuntimeErrorTy> {
    if b.len() == 0 {
        Err(RuntimeErrorTy::InvalidInstruction)
    } else {
        let p = b.drop_first();
        if b[0] == 0x00 {
            if p.len() == 0 {
                Ok(ValueModel::NoneType)
            } else {
                Err(RuntimeErrorTy::InvalidInstruction)
            }
        } else if b[0] == 0x01 {
            if p.len() == 0 {
                Ok(ValueModel::Null)
            } else {
                Err(RuntimeErrorTy::InvalidInstruction)
            }
        } else if b[0] == 0x02 {
            if p.len() == 1 {
                Ok(ValueModel::Byte(p[0]))
            } else {
                Err(RuntimeErrorTy::InvalidInstruction)
            }
        } else if b[0] == 0x03 {
            if p.len() == 2 {
                Ok(ValueModel::U16(spec_u16_from_le_bytes(p)))
            } else {
                Err(RuntimeErrorTy::InvalidInstruction)
            }
        } else if b[0] == 0x04 {
            if p.len() == 4 {
                Ok(ValueModel::U32(spec_u32_from_le_bytes(p)))
            } else {
                Err(RuntimeErrorTy::InvalidInstruction)
            }
        } else if b[0] == 0x05 {
            if p.len() == 8 {
                Ok(ValueModel::U64(spec_u64_from_le_bytes(p)))
            } else {
                Err(RuntimeErrorTy::InvalidInstruction)
            }
        } else if b[0] == 0x06 {
            if p.len() == 16 {
                Ok(ValueModel::U128(spec_u128_from_le_bytes(p)))
            } else {
                Err(RuntimeErrorTy::InvalidInstruction)
            }
        } else if b[0] == 0x07 {
            if p.len() == 1 {
                Ok(ValueModel::IByte(p[0] as i8))
            } else {
                Err(RuntimeErrorTy::InvalidInstruction)
            }
        } else if b[0] == 0x08 {
            if p.len() == 2 {
                Ok(ValueModel::I16(spec_u16_from_le_bytes(p) as i16))
            } else {
                Err(RuntimeErrorTy::InvalidInstruction)
            }
        } else if b[0] == 0x09 {
            if p.len() == 4 {
                Ok(ValueModel::I32(spec_u32_from_le_bytes(p) as i32))
            } else {
                Err(RuntimeErrorTy::InvalidInstruction)
            }
        } else if b[0] == 0x0A {
            if p.len() == 8 {
                Ok(ValueModel::I64(spec_u64_from_le_bytes(p) as i64))
            } else {
                Err(RuntimeErrorTy::InvalidInstruction)
            }
        } else if b[0] == 0x0B {
            if p.len() == 16 {
                Ok(ValueModel::I128(spec_u128_from_le_bytes(p) as i128))
            } else {
                Err(RuntimeErrorTy::InvalidInstruction)
            }
        } else if b[0] == 0x0C {
            if p.len() == 4 {
                Ok(ValueModel::F32(spec_u32_from_le_bytes(p)))
            } else {
                Err(RuntimeErrorTy::InvalidInstruction)
            }
        } else if b[0] == 0x0D {
            if p.len() == 8 {
                Ok(ValueModel::F64(spec_u64_from_le_bytes(p)))
            } else {
                Err(RuntimeErrorTy::InvalidInstruction)
            }
        } else if b[0] == 0x0E {
            if p.len() == 8 && spec_u64_from_le_bytes(p) <= usize::MAX as u64 {
                Ok(ValueModel::Pointer(AllocId(spec_u64_from_le_bytes(p) as usize)))
            } else {
                Err(RuntimeErrorTy::InvalidInstruction)
            }
        } else if b[0] == 0x0F {
            if p.len() == 1 {
                Ok(ValueModel::Bool(p[0] > 0))
            } else {
                Err(RuntimeErrorTy::InvalidInstruction)
            }
        } else if b[0] == 0x10 {
            if p.len() == 4 && is_scalar(spec_u32_from_le_bytes(p)) {
                Ok(ValueModel::Char(spec_u32_from_le_bytes(p) as char))
            } else {
                Err(RuntimeErrorTy::InvalidInstruction)
            }
        } else if b[0] == 0x11 {
            if valid_utf8(p) {
                Ok(ValueModel::Str(decode_utf8(p)))
            } else {
                Err(RuntimeErrorTy::InvalidInstruction)
            }
        } else {
            Err(RuntimeErrorTy::InvalidInstruction)
        }
    }
}

/// The failure reported for bytes that decode to no value.
fn decode_error() -> (r: RuntimeError)
    ensures
        r.ty == RuntimeErrorTy::InvalidInstruction,
{
    RuntimeError::new(
        RuntimeErrorTy::InvalidInstruction,
        String::from_str("the bytes decode to no value"),
    )
}

/// The failure reported for a value that has no byte encoding.
fn no_encoding_error() -> (r: RuntimeError)
    ensures
        r.ty == RuntimeErrorTy::UnsupportedOperation,
{
    RuntimeError::new(
        RuntimeErrorTy::UnsupportedOperation,
        String::from_str("a heap-boxed value has no byte encoding"),
    )
}

impl RuntimeValue {
    /// Encodes the value as its tag byte followed by its little-endian
    /// payload, exactly as `encode_model` lays it out. Heap-boxed values are
    /// rejected as unsupported.
    pub fn as_bytes(&self) -> (r: Result<Vec<u8>, RuntimeError>)
        ensures
            match encode_model(self@) {
                Some(b) => r matches Ok(v) && v@ == b,
                None => r matches Err(e) && e.ty == RuntimeErrorTy::UnsupportedOperation,
            },
    {
        let mut v: Vec<u8> = Vec::new();
        match self {
            RuntimeValue::NoneType => {
                v.push(0x00);
            },
            RuntimeValue::Null => {
                v.push(0x01);
            },
            RuntimeValue::Byte(n) => {
                v.push(0x02);
                v.push(*n);
            },
            RuntimeValue::U16(n) => {
                v.push(0x03);
                let mut p = u16_to_le_bytes(*n);
                v.append(&mut p);
            },
            RuntimeValue::U32(n) => {
                v.push(0x04);
                let mut p = u32_to_le_bytes(*n);
                v.append(&mut p);
            },
            RuntimeValue::U64(n) => {
                v.push(0x05);
                let mut p = u64_to_le_bytes(*n);
                v.append(&mut p);
            },
            RuntimeValue::U128(n) => {
                v.push(0x06);
                let mut p = u128_to_le_bytes(*n);
                v.append(&mut p);
            },
            RuntimeValue::IByte(n) => {
                v.push(0x07);
                v.push(*n as u8);
            },
            RuntimeValue::I16(n) => {
                v.push(0x08);
                let mut p = u16_to_le_bytes(*n as u16);
                v.append(&mut p);
            },
            RuntimeValue::I32(n) => {
                v.push(0x09);
                let mut p = u32_to_le_bytes(*n as u32);
                v.append(&mut p);
            },
            RuntimeValue::I64(n) => {
                v.push(0x0A);
                let mut p = u64_to_le_bytes(*n as u64);
                v.append(&mut p);
            },
            RuntimeValue::I128(n) => {
                v.push(0x0B);
                let mut p = u128_to_le_bytes(*n as u128);
                v.append(&mut p);
            },
            RuntimeValue::F32(bits) => {
                v.push(0x0C);
                let mut p = u32_to_le_bytes(*bits);
                v.append(&mut p);
            },
            RuntimeValue::F64(bits) => {
                v.push(0x0D);
                let mut p = u64_to_le_bytes(*bits);
                v.append(&mut p);
            },
            RuntimeValue::Pointer(id) => {
                v.push(0x0E);
                let mut p = u64_to_le_bytes(id.0 as u64);
                v.append(&mut p);
            },
            RuntimeValue::Bool(b) => {
                v.push(0x0F);
                v.push(
                    if *b {
                        1
                    } else {
                        0
                    },
                );
            },
            RuntimeValue::Char(c) => {
                v.push(0x10);
                let mut p = u32_to_le_bytes(*c as u32);
                v.append(&mut p);
            },
            RuntimeValue::Str(s) => {
                v.push(0x11);
                let mut p = slice_to_vec(s.as_str().as_bytes());
                v.append(&mut p);
            },
            RuntimeValue::GcUint(_) | RuntimeValue::GcInt(_) | RuntimeValue::GcString(_) => {
                return Err(no_encoding_error());
            },
        }
        proof {
            assert(v@ =~= encode_model(self@)->Some_0);
        }
        Ok(v)
    }

    /// Decodes one value from its byte encoding, exactly as `decode_model`
    /// reads it; every malformed buffer is a decode failure, never a crash.
    pub fn from_bytes(bytes: &[u8]) -> (r: Result<RuntimeValue, RuntimeError>)
        ensures
            match decode_model(bytes@) {
                Ok(m) => r matches Ok(v) && v@ == m,
                Err(k) => r matches Err(e) && e.ty == k,
            },
    {
        if bytes.len() == 0 {
            return Err(decode_error());
        }
        let tag = *slice_index_get(bytes, 0);
        let n = bytes.len();
        let p = slice_subrange(bytes, 1, n);
        proof {
            assert(p@ =~= bytes@.drop_first());
        }
        match tag {
            0x00 => {
                if n == 1 {
                    Ok(RuntimeValue::NoneType)
                } else {
                    Err(decode_error())
                }
            },
            0x01 => {
                if n == 1 {
                    Ok(RuntimeValue::Null)
                } else {
                    Err(decode_error())
                }
            },
            0x02 => {
                if n == 2 {
                    Ok(RuntimeValue::Byte(*slice_index_get(p, 0)))
                } else {
                    Err(decode_error())
                }
            },
            0x03 => {
                if n == 3 {
                    Ok(RuntimeValue::U16(u16_from_le_bytes(p)))
                } else {
                    Err(decode_error())
                }
            },
            0x04 => {
                if n == 5 {
                    Ok(RuntimeValue::U32(u32_from_le_bytes(p)))
                } else {
                    Err(decode_error())
                }
            },
            0x05 => {
                if n == 9 {
                    Ok(RuntimeValue::U64(u64_from_le_bytes(p)))
                } else {
                    Err(decode_error())
                }
            },
            0x06 => {
                if n == 17 {
                    Ok(RuntimeValue::U128(u128_from_le_bytes(p)))
                } else {
                    Err(decode_error())
                }
            },
            0x07 => {
                if n == 2 {
                    Ok(RuntimeValue::IByte(*slice_index_get(p, 0) as i8))
                } else {
                    Err(decode_error())
                }
            },
            0x08 => {
                if n == 3 {
                    Ok(RuntimeValue::I16(u16_from_le_bytes(p) as i16))
                } else {
                    Err(decode_error())
                }
            },
            0x09 => {
                if n == 5 {
                    Ok(RuntimeValue::I32(u32_from_le_bytes(p) as i32))
                } else {
                    Err(decode_error())
                }
            },
            0x0A => {
                if n == 9 {
                    Ok(RuntimeValue::I64(u64_from_le_bytes(p) as i64))
                } else {
                    Err(decode_error())
                }
            },
            0x0B => {
                if n == 17 {
                    Ok(RuntimeValue::I128(u128_from_le_bytes(p) as i128))
                } else {
                    Err(decode_error())
                }
            },
            0x0C => {
                if n == 5 {
                    Ok(RuntimeValue::F32(u32_from_le_bytes(p)))
                } else {
                    Err(decode_error())
                }
            },
            0x0D => {
                if n == 9 {
                    Ok(RuntimeValue::F64(u64_from_le_bytes(p)))
                } else {
                    Err(decode_error())
                }
            },
            0x0E => {
                if n == 9 {
                    let w = u64_from_le_bytes(p);
                    if w <= usize::MAX as u64 {
                        Ok(RuntimeValue::Pointer(AllocId(w as usize)))
                    } else {
                        Err(decode_error())
                    }
                } else {
                    Err(decode_error())
                }
            },
            0x0F => {
                if n == 2 {
                    Ok(RuntimeValue::Bool(*slice_index_get(p, 0) > 0))
                } else {
                    Err(decode_error())
                }
            },
            0x10 => {
                if n == 5 {
                    let w = u32_from_le_bytes(p);
                    match char_from_u32(w) {
                        Some(c) => {
                            proof {
                                vstd::utf8::char_u32_cast(c, w);
                            }
                            Ok(RuntimeValue::Char(c))
                        },
                        None => Err(decode_error()),
                    }
                } else {
                    Err(decode_error())
                }
            },
            0x11 => {
                match utf8_to_string(slice_to_vec(p)) {
                    Some(s) => Ok(RuntimeValue::Str(s)),
                    None => Err(decode_error()),
                }
            },
            _ => Err(decode_error()),
        }
    }
}

/// Law: for every value with a defined byte encoding, decoding the encoding
/// reproduces the value exactly — bit for bit for the numeric, boolean,
/// float-pattern and character payloads, character for character for
/// strings.
pub proof fn lemma_codec_round_trip(m: ValueModel)
    requires
        encode_model(m) is Some,
    ensures
        decode_model(encode_model(m)->Some_0) == Result::<ValueModel, RuntimeErrorTy>::Ok(m),
{
    vstd::bytes::lemma_auto_spec_u16_to_from_le_bytes();
    vstd::bytes::lemma_auto_spec_u32_to_from_le_bytes();
    vstd::bytes::lemma_auto_spec_u64_to_from_le_bytes();
    vstd::bytes::lemma_auto_spec_u128_to_from_le_bytes();
    let b = encode_model(m)->Some_0;
    let p = b.drop_first();
    match m {
        ValueModel::U16(n) => {
            assert(p =~= spec_u16_to_le_bytes(n));
            assert(decode_model(b) == Result::<ValueModel, RuntimeErrorTy>::Ok(m));
        },
        ValueModel::U32(n) => {
            assert(p =~= spec_u32_to_le_bytes(n));
            assert(decode_model(b) == Result::<ValueModel, RuntimeErrorTy>::Ok(m));
        },
        ValueModel::U64(n) => {
            assert(p =~= spec_u64_to_le_bytes(n));
            assert(decode_model(b) == Result::<ValueModel, RuntimeErrorTy>::Ok(m));
        },
        ValueModel::U128(n) => {
            assert(p =~= spec_u128_to_le_bytes(n));
            assert(decode_model(b) == Result::<ValueModel, RuntimeErrorTy>::Ok(m));
        },
        ValueModel::I16(n) => {
            assert(p =~= spec_u16_to_le_bytes(n as u16));
            assert((n as u16) as i16 == n) by (bit_vector);
            assert(decode_model(b) == Result::<ValueModel, RuntimeErrorTy>::Ok(m));
        },
        ValueModel::I32(n) => {
            assert(p =~= spec_u32_to_le_bytes(n as u32));
            assert((n as u32) as i32 == n) by (bit_vector);
            assert(decode_model(b) == Result::<ValueModel, RuntimeErrorTy>::Ok(m));
        },
        ValueModel::I64(n) => {
            assert(p =~= spec_u64_to_le_bytes(n as u64));
            assert((n as u64) as i64 == n) by (bit_vector);
            assert(decode_model(b) == Result::<ValueModel, RuntimeErrorTy>::Ok(m));
        },
        ValueModel::I128(n) => {
            assert(p =~= spec_u128_to_le_bytes(n as u128));
            assert((n as u128) as i128 == n) by (bit_vector);
            assert(decode_model(b) == Result::<ValueModel, RuntimeErrorTy>::Ok(m));
        },
        ValueModel::F32(bits) => {
            assert(p =~= spec_u32_to_le_bytes(bits));
            assert(decode_model(b) == Result::<ValueModel, RuntimeErrorTy>::Ok(m));
        },
        ValueModel::F64(bits) => {
            assert(p =~= spec_u64_to_le_bytes(bits));
            assert(decode_model(b) == Result::<ValueModel, RuntimeErrorTy>::Ok(m));
        },
        ValueModel::Pointer(id) => {
            assert(p =~= spec_u64_to_le_bytes(id.0 as u64));
            assert(decode_model(b) == Result::<ValueModel, RuntimeErrorTy>::Ok(m));
        },
        ValueModel::Char(c) => {
            assert(p =~= spec_u32_to_le_bytes(c as u32));
            vstd::utf8::char_is_scalar(c);
            vstd::utf8::char_u32_cast(c, c as u32);
            assert(decode_model(b) == Result::<ValueModel, RuntimeErrorTy>::Ok(m));
        },
        ValueModel::Str(s) => {
            assert(p =~= encode_utf8(s));
            vstd::utf8::encode_utf8_valid_utf8(s);
            vstd::utf8::encode_utf8_decode_utf8(s);
            assert(decode_model(b) == Result::<ValueModel, RuntimeErrorTy>::Ok(m));
        },
        ValueModel::Byte(n) => {
            assert(p =~= seq![n]);
            assert(decode_model(b) == Result::<ValueModel, RuntimeErrorTy>::Ok(m));
        },
        ValueModel::IByte(n) => {
            assert(p =~= seq![n as u8]);
            assert((n as u8) as i8 == n) by (bit_vector);
            assert(decode_model(b) == Result::<ValueModel, RuntimeErrorTy>::Ok(m));
        },
        ValueModel::Bool(v) => {
            let pb: u8 = if v {
                1u8
            } else {
                0u8
            };
            assert(p =~= seq![pb]);
            assert(decode_model(b) == Result::<ValueModel, RuntimeErrorTy>::Ok(m));
        },
        _ => {
            assert(p =~= Seq::<u8>::empty());
            assert(decode_model(b) == Result::<ValueModel, RuntimeErrorTy>::Ok(m));
        },
    }
}

} // verus!

