use vstd::prelude::*;
use crate::bytes_util::{le_decode, le_val, lemma_le_val_bound, pow256};
use crate::errors::VerifyError;
use crate::types::{TypeTag, Value, ValueView};

verus! {

/// What a raw argument blob means under a declared type: the exact inverse
/// shape of the canonical encoding, consuming the blob entirely.
pub open spec fn sp_value(t: TypeTag, b: Seq<u8>) -> Option<ValueView> {
    match t {
        TypeTag::Bool => if b.len() == 1 && (b[0] == 0 || b[0] == 1) {
            Some(ValueView::Bool(b[0] == 1))
        } else {
            None
        },
        TypeTag::U8 => if b.len() == 1 {
            Some(ValueView::U8(b[0]))
        } else {
            None
        },
        TypeTag::U64 => if b.len() == 8 {
            Some(ValueView::U64(le_val(b) as u64))
        } else {
            None
        },
        TypeTag::U128 => if b.len() == 16 {
            Some(ValueView::U128(le_val(b) as u128))
        } else {
            None
        },
        TypeTag::Address => if b.len() == 16 {
            Some(ValueView::Address(le_val(b) as u128))
        } else {
            None
        },
        TypeTag::Signer => None,
        TypeTag::Bytes => if b.len() >= 4 && le_val(b.subrange(0, 4)) == b.len() - 4 {
            Some(ValueView::Bytes(b.subrange(4, b.len() as int)))
        } else {
            None
        },
    }
}

/// Deserialize one raw argument under its declared type.
pub fn decode_value(t: TypeTag, b: &Vec<u8>) -> (r: Option<Value>)
    ensures
        match r {
            Some(v) => sp_value(t, b@) == Some(v@),
            None => sp_value(t, b@) is None,
        },
{
    proof {
        reveal_with_fuel(pow256, 17);
    }
    match t {
        TypeTag::Bool => {
            if b.len() == 1 {
                if b[0] == 0 {
                    Some(Value::Bool(false))
                } else if b[0] == 1 {
                    Some(Value::Bool(true))
                } else {
                    None
                }
            } else {
                None
            }
        },
        TypeTag::U8 => {
            if b.len() == 1 {
                Some(Value::U8(b[0]))
            } else {
                None
            }
        },
        TypeTag::U64 => {
            if b.len() == 8 {
                let x = le_decode(b, 0, 8);
                proof {
                    assert(b@.subrange(0, 8) =~= b@);
                    lemma_le_val_bound(b@);
                    crate::bytes_util::lemma_pow256_monotone(8, 16);
                    assert(pow256(8) == 0x10000000000000000);
                }
                Some(Value::U64(x as u64))
            } else {
                None
            }
        },
        TypeTag::U128 => {
            if b.len() == 16 {
                let x = le_decode(b, 0, 16);
                proof {
                    assert(b@.subrange(0, 16) =~= b@);
                }
                Some(Value::U128(x))
            } else {
                None
            }
        },
        TypeTag::Address => {
            if b.len() == 16 {
                let x = le_decode(b, 0, 16);
                proof {
                    assert(b@.subrange(0, 16) =~= b@);
                }
                Some(Value::Address(x))
            } else {
                None
            }
        },
        TypeTag::Signer => None,
        TypeTag::Bytes => {
            if b.len() >= 4 {
                let len = le_decode(b, 0, 4);
                if len == (b.len() - 4) as u128 {
                    let mut out: Vec<u8> = Vec::new();
                    let mut i: usize = 0;
                    let total = b.len() - 4;
                    while i < total
                        invariant
                            i <= total,
                            total == b@.len() - 4,
                            b@.len() <= usize::MAX,
                            out@ == b@.subrange(4, 4 + i as int),
                        decreases total - i,
                    {
                        out.push(b[4 + i]);
                        proof {
                            assert(out@ =~= b@.subrange(4, 4 + i + 1));
                        }
                        i += 1;
                    }
                    Some(Value::Bytes(out))
                } else {
                    None
                }
            } else {
                None
            }
        },
    }
}

/// The length of the leading run of signer parameters from position i.
pub open spec fn signer_prefix(params: Seq<TypeTag>, i: int) -> int
    decreases params.len() - i,
{
    if i < 0 || i >= params.len() {
        0
    } else if params[i] is Signer {
        1 + signer_prefix(params, i + 1)
    } else {
        0
    }
}

/// The first signer parameter at or after position i, if any. One after the
/// leading run means a signer follows a value parameter.
pub open spec fn first_late_signer(params: Seq<TypeTag>, i: int) -> Option<int>
    decreases params.len() - i,
{
    if i < 0 || i >= params.len() {
        None
    } else if params[i] is Signer {
        Some(i)
    } else {
        first_late_signer(params, i + 1)
    }
}

/// The first trailing argument that does not deserialize under its type.
pub open spec fn first_bad_arg(
    params: Seq<TypeTag>,
    k: int,
    args: Seq<Seq<u8>>,
    j: int,
) -> Option<int>
    decreases args.len() - j,
{
    if j < 0 || j >= args.len() {
        None
    } else if sp_value(params[k + j], args[j]) is None {
        Some(j)
    } else {
        first_bad_arg(params, k, args, j + 1)
    }
}

pub open spec fn signer_vals(senders: Seq<u128>) -> Seq<ValueView> {
    senders.map_values(|a: u128| ValueView::Signer(a))
}

pub open spec fn decoded_vals(params: Seq<TypeTag>, k: int, args: Seq<Seq<u8>>) -> Seq<ValueView> {
    Seq::new(args.len(), |j: int| sp_value(params[k + j], args[j])->Some_0)
}

pub open spec fn vals_view(vs: Seq<Value>) -> Seq<ValueView> {
    vs.map_values(|v: Value| v@)
}

pub proof fn lemma_vals_view_push(vs: Seq<Value>, x: Value)
    ensures
        vals_view(vs.push(x)) == vals_view(vs).push(x@),
{
    assert(vals_view(vs.push(x)) =~= vals_view(vs).push(x@));
}

pub ghost enum ArgsVerdict {
    Accepted(Seq<ValueView>),
    Rejected(VerifyError),
}

/// What argument verification owes: the declared parameters are a leading run
/// of signers and a trailing run of values; the senders fill the former, the
/// raw arguments deserialize to the latter, or the named error results.
pub open spec fn args_verdict(
    params: Seq<TypeTag>,
    senders: Seq<u128>,
    args: Seq<Seq<u8>>,
) -> ArgsVerdict {
    let k = signer_prefix(params, 0);
    match first_late_signer(params, k) {
        Some(p) => ArgsVerdict::Rejected(
            VerifyError::SignerParameterOrderError { pos: p as usize },
        ),
        None => {
            if senders.len() != k {
                ArgsVerdict::Rejected(
                    VerifyError::SignerCountMismatch {
                        expected: k as usize,
                        actual: senders.len() as usize,
                    },
                )
            } else if args.len() != params.len() - k {
                let m = if args.len() < params.len() - k {
                    args.len() as int
                } else {
                    params.len() - k
                };
                ArgsVerdict::Rejected(
                    VerifyError::ArgumentDeserializationError { pos: (k + m) as usize },
                )
            } else {
                match first_bad_arg(params, k, args, 0) {
                    Some(j) => ArgsVerdict::Rejected(
                        VerifyError::ArgumentDeserializationError { pos: (k + j) as usize },
                    ),
                    None => ArgsVerdict::Accepted(
                        signer_vals(senders) + decoded_vals(params, k, args),
                    ),
                }
            }
        },
    }
}

pub open spec fn arg_views(args: Seq<Vec<u8>>) -> Seq<Seq<u8>> {
    args.map_values(|b: Vec<u8>| b@)
}

/// Verify an entry point's arguments against its declared parameters: convert
/// each sender to its signer parameter and deserialize each raw argument
/// under its declared type, coercing nothing.
pub fn verify_arguments(params: &Vec<TypeTag>, senders: &Vec<u128>, args: &Vec<Vec<u8>>) -> (r:
    Result<Vec<Value>, VerifyError>)
    ensures
        match args_verdict(params@, senders@, arg_views(args@)) {
            ArgsVerdict::Accepted(vs) => r matches Ok(out) && vals_view(out@) == vs,
            ArgsVerdict::Rejected(e) => r matches Err(e2) && e2 == e,
        },
{
    let ghost pv = params@;
    let ghost av = arg_views(args@);
    let mut k: usize = 0;
    while k < params.len() && params[k] == TypeTag::Signer
        invariant
            k <= pv.len(),
            pv == params@,
            signer_prefix(pv, 0) == k + signer_prefix(pv, k as int),
        decreases params.len() - k,
    {
        k += 1;
    }
    proof {
        assert(signer_prefix(pv, 0) == k as int);
    }
    let mut j: usize = k;
    while j < params.len()
        invariant
            k <= j <= pv.len(),
            pv == params@,
            signer_prefix(pv, 0) == k as int,
            first_late_signer(pv, k as int) == first_late_signer(pv, j as int),
        decreases params.len() - j,
    {
        if params[j] == TypeTag::Signer {
            return Err(VerifyError::SignerParameterOrderError { pos: j });
        }
        j += 1;
    }
    proof {
        assert(first_late_signer(pv, k as int) is None);
    }
    if senders.len() != k {
        return Err(VerifyError::SignerCountMismatch { expected: k, actual: senders.len() });
    }
    let trailing = params.len() - k;
    if args.len() != trailing {
        let m = if args.len() < trailing {
            args.len()
        } else {
            trailing
        };
        return Err(VerifyError::ArgumentDeserializationError { pos: k + m });
    }
    let mut out: Vec<Value> = Vec::new();
    let mut i: usize = 0;
    while i < senders.len()
        invariant
            i <= senders@.len(),
            vals_view(out@) == signer_vals(senders@).subrange(0, i as int),
        decreases senders.len() - i,
    {
        let ghost out0 = out@;
        out.push(Value::Signer(senders[i]));
        proof {
            lemma_vals_view_push(out0, Value::Signer(senders@[i as int]));
            assert(vals_view(out@) =~= signer_vals(senders@).subrange(0, i + 1));
        }
        i += 1;
    }
    proof {
        assert(signer_vals(senders@).subrange(0, senders@.len() as int) =~= signer_vals(senders@));
    }
    let mut j: usize = 0;
    while j < args.len()
        invariant
            j <= av.len(),
            pv == params@,
            av == arg_views(args@),
            av.len() == args@.len(),
            signer_prefix(pv, 0) == k as int,
            first_late_signer(pv, k as int) is None,
            senders@.len() == k,
            av.len() == pv.len() - k,
            pv.len() <= usize::MAX,
            first_bad_arg(pv, k as int, av, 0) == first_bad_arg(pv, k as int, av, j as int),
            vals_view(out@) == signer_vals(senders@) + decoded_vals(pv, k as int, av).subrange(
                0,
                j as int,
            ),
        decreases args.len() - j,
    {
        proof {
            assert(av[j as int] == args@[j as int]@);
        }
        match decode_value(params[k + j], &args[j]) {
            Some(v) => {
                proof {
                    assert(decoded_vals(pv, k as int, av)[j as int] == v@);
                    assert((signer_vals(senders@) + decoded_vals(pv, k as int, av).subrange(
                        0,
                        j as int,
                    )).push(v@) =~= signer_vals(senders@) + decoded_vals(
                        pv,
                        k as int,
                        av,
                    ).subrange(0, j + 1));
                    lemma_vals_view_push(out@, v);
                }
                out.push(v);
            },
            None => {
                return Err(VerifyError::ArgumentDeserializationError { pos: k + j });
            },
        }
        j += 1;
    }
    proof {
        assert(first_bad_arg(pv, k as int, av, 0) is None);
        assert(decoded_vals(pv, k as int, av).subrange(0, av.len() as int) =~= decoded_vals(
            pv,
            k as int,
            av,
        ));
    }
    Ok(out)
}

} // verus!
