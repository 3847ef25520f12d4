use vstd::prelude::*;
use crate::bytes_util::{le_bytes, le_encode};
use crate::errors::NativeFailure;
use crate::gas::{
    scaled_cost, sp_cost, GasStatus, BCS_TO_BYTES_BASE_COST, SHA2_256_BASE_COST,
    SHA3_256_BASE_COST,
};
use crate::types::{has_layout, value_has_type, TypeTag, Value, ValueView};

verus! {

pub uninterp spec fn sha2_256_of(input: Seq<u8>) -> Seq<u8>;

pub uninterp spec fn sha3_256_of(input: Seq<u8>) -> Seq<u8>;

/// Relies on sha2::Sha256 (Digest::digest): the 32-byte SHA-256 digest, a
/// pure function of the input bytes alone.
#[verifier::external_body]
fn sha2_256_digest(input: &Vec<u8>) -> (r: Vec<u8>)
    ensures
        r@ == sha2_256_of(input@),
        r@.len() == 32,
{
    <sha2::Sha256 as sha2::Digest>::digest(input.as_slice()).to_vec()
}

/// Relies on sha3::Sha3_256 (Digest::digest): the 32-byte SHA3-256 digest, a
/// pure function of the input bytes alone.
#[verifier::external_body]
fn sha3_256_digest(input: &Vec<u8>) -> (r: Vec<u8>)
    ensures
        r@ == sha3_256_of(input@),
        r@.len() == 32,
{
    <sha3::Sha3_256 as sha3::Digest>::digest(input.as_slice()).to_vec()
}

/// A value's size bound so its canonical form's length prefix fits.
pub open spec fn value_fits(v: ValueView) -> bool {
    v matches ValueView::Bytes(s) ==> s.len() <= u32::MAX
}

/// The canonical byte encoding of a serializable value: booleans one byte,
/// integers and addresses little-endian and fixed width, byte strings a
/// four-byte length then the bytes. Deterministic by construction.
pub open spec fn sp_canonical(v: ValueView) -> Seq<u8> {
    match v {
        ValueView::Bool(b) => seq![if b { 1u8 } else { 0u8 }],
        ValueView::U8(x) => seq![x],
        ValueView::U64(x) => le_bytes(x as nat, 8),
        ValueView::U128(x) => le_bytes(x as nat, 16),
        ValueView::Address(a) => le_bytes(a as nat, 16),
        ValueView::Signer(a) => Seq::empty(),
        ValueView::Bytes(s) => le_bytes(s.len(), 4) + s,
    }
}

/// Canonically encode a serializable value.
pub fn canonical_encode(v: &Value) -> (r: Vec<u8>)
    requires
        !(v@ is Signer),
        value_fits(v@),
    ensures
        r@ == sp_canonical(v@),
{
    match v {
        Value::Bool(b) => {
            let mut out: Vec<u8> = Vec::new();
            if *b {
                out.push(1u8);
            } else {
                out.push(0u8);
            }
            proof {
                assert(out@ =~= sp_canonical(v@));
            }
            out
        },
        Value::U8(x) => {
            let mut out: Vec<u8> = Vec::new();
            out.push(*x);
            proof {
                assert(out@ =~= sp_canonical(v@));
            }
            out
        },
        Value::U64(x) => le_encode(*x as u128, 8),
        Value::U128(x) => le_encode(*x, 16),
        Value::Address(a) => le_encode(*a, 16),
        Value::Signer(_) => {
            proof {
                assert(false);
            }
            Vec::new()
        },
        Value::Bytes(s) => {
            let mut out = le_encode(s.len() as u128, 4);
            let mut i: usize = 0;
            while i < s.len()
                invariant
                    i <= s@.len(),
                    out@ == le_bytes(s@.len(), 4) + s@.subrange(0, i as int),
                decreases s.len() - i,
            {
                out.push(s[i]);
                proof {
                    assert(out@ =~= le_bytes(s@.len(), 4) + s@.subrange(0, i + 1));
                }
                i += 1;
            }
            proof {
                assert(s@.subrange(0, s@.len() as int) =~= s@);
                assert(out@ =~= sp_canonical(v@));
            }
            out
        },
    }
}

/// The 256-bit general-purpose digest built-in: charges cost proportional to
/// the input length, then returns the 32-byte digest. Never fails except out
/// of gas, and the charge precedes the work.
pub fn native_sha2_256(gas_status: &mut GasStatus, arg: Vec<u8>) -> (r: Result<Value, NativeFailure>)
    requires
        old(gas_status).wf(),
    ensures
        final(gas_status).wf(),
        ({
            let cost = sp_cost(SHA2_256_BASE_COST, arg@.len());
            if cost <= old(gas_status).remaining {
                &&& r matches Ok(v) && v@ == ValueView::Bytes(sha2_256_of(arg@))
                &&& final(gas_status).charged == old(gas_status).charged + cost
                &&& final(gas_status).remaining == old(gas_status).remaining - cost
            } else {
                &&& r matches Err(f) && f == NativeFailure::OutOfGas
                &&& final(gas_status).charged == old(gas_status).charged + old(
                    gas_status,
                ).remaining
                &&& final(gas_status).remaining == 0
            }
        }),
{
    let cost = scaled_cost(SHA2_256_BASE_COST, arg.len());
    match gas_status.charge(cost) {
        Ok(u) => {
            let digest = sha2_256_digest(&arg);
            Ok(Value::Bytes(digest))
        },
        Err(f) => Err(f),
    }
}

/// The 256-bit domain-distinct digest built-in; metered like the
/// general-purpose one over its own base cost.
pub fn native_sha3_256(gas_status: &mut GasStatus, arg: Vec<u8>) -> (r: Result<Value, NativeFailure>)
    requires
        old(gas_status).wf(),
    ensures
        final(gas_status).wf(),
        ({
            let cost = sp_cost(SHA3_256_BASE_COST, arg@.len());
            if cost <= old(gas_status).remaining {
                &&& r matches Ok(v) && v@ == ValueView::Bytes(sha3_256_of(arg@))
                &&& final(gas_status).charged == old(gas_status).charged + cost
                &&& final(gas_status).remaining == old(gas_status).remaining - cost
            } else {
                &&& r matches Err(f) && f == NativeFailure::OutOfGas
                &&& final(gas_status).charged == old(gas_status).charged + old(
                    gas_status,
                ).remaining
                &&& final(gas_status).remaining == 0
            }
        }),
{
    let cost = scaled_cost(SHA3_256_BASE_COST, arg.len());
    match gas_status.charge(cost) {
        Ok(u) => {
            let digest = sha3_256_digest(&arg);
            Ok(Value::Bytes(digest))
        },
        Err(f) => Err(f),
    }
}

/// The canonical-serialization built-in. A value whose type has no layout
/// costs the fixed failure charge and reports it cannot be serialized; a
/// serializable value costs in proportion to its encoded length and yields
/// the canonical bytes. Either way gas is charged first: probing is not free.
pub fn native_to_bytes(gas_status: &mut GasStatus, ty: TypeTag, arg: &Value) -> (r: Result<
    Value,
    NativeFailure,
>)
    requires
        old(gas_status).wf(),
        value_has_type(arg@, ty),
        value_fits(arg@),
    ensures
        final(gas_status).wf(),
        ({
            if !has_layout(ty) {
                let cost = sp_cost(BCS_TO_BYTES_BASE_COST, 1);
                if cost <= old(gas_status).remaining {
                    &&& r matches Err(f) && f == NativeFailure::SerializationUnsupported
                    &&& final(gas_status).charged == old(gas_status).charged + cost
                    &&& final(gas_status).remaining == old(gas_status).remaining - cost
                } else {
                    &&& r matches Err(f) && f == NativeFailure::OutOfGas
                    &&& final(gas_status).charged == old(gas_status).charged + old(
                        gas_status,
                    ).remaining
                    &&& final(gas_status).remaining == 0
                }
            } else {
                let bytes = sp_canonical(arg@);
                let cost = sp_cost(BCS_TO_BYTES_BASE_COST, bytes.len());
                if cost <= old(gas_status).remaining {
                    &&& r matches Ok(v) && v@ == ValueView::Bytes(bytes)
                    &&& final(gas_status).charged == old(gas_status).charged + cost
                    &&& final(gas_status).remaining == old(gas_status).remaining - cost
                } else {
                    &&& r matches Err(f) && f == NativeFailure::OutOfGas
                    &&& final(gas_status).charged == old(gas_status).charged + old(
                        gas_status,
                    ).remaining
                    &&& final(gas_status).remaining == 0
                }
            }
        }),
{
    let serializable = match ty {
        TypeTag::Signer => false,
        _ => true,
    };
    if serializable {
        let bytes = canonical_encode(arg);
        let cost = scaled_cost(BCS_TO_BYTES_BASE_COST, bytes.len());
        match gas_status.charge(cost) {
            Ok(u) => Ok(Value::Bytes(bytes)),
            Err(f) => Err(f),
        }
    } else {
        let cost = scaled_cost(BCS_TO_BYTES_BASE_COST, 1);
        match gas_status.charge(cost) {
            Ok(u) => Err(NativeFailure::SerializationUnsupported),
            Err(f) => Err(f),
        }
    }
}

} // verus!
