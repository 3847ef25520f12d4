use vstd::prelude::*;
use crate::bytes_util::{le_val, le_decode, lemma_le_val_bound};
use crate::types::{TypeTag, Visibility};
use crate::module::{
    FieldDef, FieldView, FunView, FunctionDef, IdView, ModuleIdentity, ModuleView, StructDef,
    StructView, VerifiedModule, fields_view, funs_view, ids_view, lemma_fields_view_push,
    lemma_funs_view_push, lemma_ids_view_push, lemma_structs_view_push, structs_view,
};

verus! {

// The wire format a module summary is read from. All counts and name lengths
// are one byte; addresses are 16 bytes little-endian; a module is
//   address, name, dependency list, struct list, function list
// and must fill its byte sequence exactly.

pub open spec fn sp_u8(b: Seq<u8>, p: int) -> Option<(u8, int)> {
    if 0 <= p < b.len() {
        Some((b[p], p + 1))
    } else {
        None
    }
}

pub open spec fn sp_u128(b: Seq<u8>, p: int) -> Option<(u128, int)> {
    if 0 <= p && p + 16 <= b.len() {
        Some((le_val(b.subrange(p, p + 16)) as u128, p + 16))
    } else {
        None
    }
}

pub open spec fn sp_name(b: Seq<u8>, p: int) -> Option<(Seq<u8>, int)> {
    match sp_u8(b, p) {
        Some((n, p1)) => if p1 + n as int <= b.len() {
            Some((b.subrange(p1, p1 + n as int), p1 + n as int))
        } else {
            None
        },
        None => None,
    }
}

pub open spec fn type_of_byte(t: u8) -> Option<TypeTag> {
    if t == 0 {
        Some(TypeTag::Bool)
    } else if t == 1 {
        Some(TypeTag::U8)
    } else if t == 2 {
        Some(TypeTag::U64)
    } else if t == 3 {
        Some(TypeTag::U128)
    } else if t == 4 {
        Some(TypeTag::Address)
    } else if t == 5 {
        Some(TypeTag::Signer)
    } else if t == 6 {
        Some(TypeTag::Bytes)
    } else {
        None
    }
}

pub open spec fn vis_of_byte(t: u8) -> Option<Visibility> {
    if t == 0 {
        Some(Visibility::Public)
    } else if t == 1 {
        Some(Visibility::Friend)
    } else if t == 2 {
        Some(Visibility::Private)
    } else {
        None
    }
}

pub open spec fn sp_type(b: Seq<u8>, p: int) -> Option<(TypeTag, int)> {
    match sp_u8(b, p) {
        Some((t, p1)) => match type_of_byte(t) {
            Some(tt) => Some((tt, p1)),
            None => None,
        },
        None => None,
    }
}

pub open spec fn sp_id(b: Seq<u8>, p: int) -> Option<(IdView, int)> {
    match sp_u128(b, p) {
        Some((addr, p1)) => match sp_name(b, p1) {
            Some((nm, p2)) => Some((IdView { address: addr, name: nm }, p2)),
            None => None,
        },
        None => None,
    }
}

pub open spec fn sp_field(b: Seq<u8>, p: int) -> Option<(FieldView, int)> {
    match sp_name(b, p) {
        Some((nm, p1)) => match sp_type(b, p1) {
            Some((t, p2)) => Some((FieldView { name: nm, ty: t }, p2)),
            None => None,
        },
        None => None,
    }
}

pub open spec fn sp_types(b: Seq<u8>, p: int, n: nat) -> Option<(Seq<TypeTag>, int)>
    decreases n,
{
    if n == 0 {
        Some((Seq::empty(), p))
    } else {
        match sp_type(b, p) {
            Some((x, p1)) => match sp_types(b, p1, (n - 1) as nat) {
                Some((xs, p2)) => Some((seq![x] + xs, p2)),
                None => None,
            },
            None => None,
        }
    }
}

pub open spec fn sp_ids(b: Seq<u8>, p: int, n: nat) -> Option<(Seq<IdView>, int)>
    decreases n,
{
    if n == 0 {
        Some((Seq::empty(), p))
    } else {
        match sp_id(b, p) {
            Some((x, p1)) => match sp_ids(b, p1, (n - 1) as nat) {
                Some((xs, p2)) => Some((seq![x] + xs, p2)),
                None => None,
            },
            None => None,
        }
    }
}

pub open spec fn sp_fields(b: Seq<u8>, p: int, n: nat) -> Option<(Seq<FieldView>, int)>
    decreases n,
{
    if n == 0 {
        Some((Seq::empty(), p))
    } else {
        match sp_field(b, p) {
            Some((x, p1)) => match sp_fields(b, p1, (n - 1) as nat) {
                Some((xs, p2)) => Some((seq![x] + xs, p2)),
                None => None,
            },
            None => None,
        }
    }
}

pub open spec fn sp_struct(b: Seq<u8>, p: int) -> Option<(StructView, int)> {
    match sp_name(b, p) {
        Some((nm, p1)) => match sp_u8(b, p1) {
            Some((ab, p2)) => match sp_u8(b, p2) {
                Some((n, p3)) => match sp_fields(b, p3, n as nat) {
                    Some((fs, p4)) => Some(
                        (StructView { name: nm, abilities: ab, fields: fs }, p4),
                    ),
                    None => None,
                },
                None => None,
            },
            None => None,
        },
        None => None,
    }
}

pub open spec fn sp_structs(b: Seq<u8>, p: int, n: nat) -> Option<(Seq<StructView>, int)>
    decreases n,
{
    if n == 0 {
        Some((Seq::empty(), p))
    } else {
        match sp_struct(b, p) {
            Some((x, p1)) => match sp_structs(b, p1, (n - 1) as nat) {
                Some((xs, p2)) => Some((seq![x] + xs, p2)),
                None => None,
            },
            None => None,
        }
    }
}

pub open spec fn sp_fun(b: Seq<u8>, p: int) -> Option<(FunView, int)> {
    match sp_name(b, p) {
        Some((nm, p1)) => match sp_u8(b, p1) {
            Some((vb, p2)) => match vis_of_byte(vb) {
                Some(vis) => match sp_u8(b, p2) {
                    Some((np, p3)) => match sp_types(b, p3, np as nat) {
                        Some((ps, p4)) => match sp_u8(b, p4) {
                            Some((nr, p5)) => match sp_types(b, p5, nr as nat) {
                                Some((rs, p6)) => Some(
                                    (
                                        FunView {
                                            name: nm,
                                            visibility: vis,
                                            params: ps,
                                            returns: rs,
                                        },
                                        p6,
                                    ),
                                ),
                                None => None,
                            },
                            None => None,
                        },
                        None => None,
                    },
                    None => None,
                },
                None => None,
            },
            None => None,
        },
        None => None,
    }
}

pub open spec fn sp_funs(b: Seq<u8>, p: int, n: nat) -> Option<(Seq<FunView>, int)>
    decreases n,
{
    if n == 0 {
        Some((Seq::empty(), p))
    } else {
        match sp_fun(b, p) {
            Some((x, p1)) => match sp_funs(b, p1, (n - 1) as nat) {
                Some((xs, p2)) => Some((seq![x] + xs, p2)),
                None => None,
            },
            None => None,
        }
    }
}

/// What a byte sequence means as a module: the black-box bytecode decoding and
/// verification boundary of this core. `None` is a malformed or unverifiable
/// module.
pub open spec fn sp_module(b: Seq<u8>) -> Option<ModuleView> {
    match sp_u128(b, 0) {
        Some((addr, p1)) => match sp_name(b, p1) {
            Some((nm, p2)) => match sp_u8(b, p2) {
                Some((nd, p3)) => match sp_ids(b, p3, nd as nat) {
                    Some((deps, p4)) => match sp_u8(b, p4) {
                        Some((ns, p5)) => match sp_structs(b, p5, ns as nat) {
                            Some((ss, p6)) => match sp_u8(b, p6) {
                                Some((nf, p7)) => match sp_funs(b, p7, nf as nat) {
                                    Some((fs, p8)) => if p8 == b.len() {
                                        Some(
                                            ModuleView {
                                                address: addr,
                                                name: nm,
                                                deps,
                                                structs: ss,
                                                functions: fs,
                                            },
                                        )
                                    } else {
                                        None
                                    },
                                    None => None,
                                },
                                None => None,
                            },
                            None => None,
                        },
                        None => None,
                    },
                    None => None,
                },
                None => None,
            },
            None => None,
        },
        None => None,
    }
}

/// What a byte sequence means as a script: the declared parameter list of its
/// entry function, filling the byte sequence exactly.
pub open spec fn sp_script_params(b: Seq<u8>) -> Option<Seq<TypeTag>> {
    match sp_u8(b, 0) {
        Some((n, p1)) => match sp_types(b, p1, n as nat) {
            Some((ps, p2)) => if p2 == b.len() {
                Some(ps)
            } else {
                None
            },
            None => None,
        },
        None => None,
    }
}

fn read_u8(v: &Vec<u8>, p: usize) -> (r: Option<(u8, usize)>)
    ensures
        match r {
            Some((x, q)) => sp_u8(v@, p as int) == Some((x, q as int)) && q <= v@.len(),
            None => sp_u8(v@, p as int) is None,
        },
{
    if p < v.len() {
        Some((v[p], p + 1))
    } else {
        None
    }
}

fn read_u128(v: &Vec<u8>, p: usize) -> (r: Option<(u128, usize)>)
    ensures
        match r {
            Some((x, q)) => sp_u128(v@, p as int) == Some((x, q as int)) && q <= v@.len(),
            None => sp_u128(v@, p as int) is None,
        },
{
    if p <= v.len() && v.len() - p >= 16 {
        let x = le_decode(v, p, p + 16);
        proof {
            lemma_le_val_bound(v@.subrange(p as int, p + 16));
        }
        Some((x, p + 16))
    } else {
        None
    }
}

fn read_name(v: &Vec<u8>, p: usize) -> (r: Option<(Vec<u8>, usize)>)
    ensures
        match r {
            Some((x, q)) => sp_name(v@, p as int) == Some((x@, q as int)) && q <= v@.len(),
            None => sp_name(v@, p as int) is None,
        },
{
    match read_u8(v, p) {
        Some((n, p1)) => {
            let cnt = n as usize;
            if cnt <= v.len() - p1 {
                let mut out: Vec<u8> = Vec::new();
                let mut i: usize = 0;
                while i < cnt
                    invariant
                        i <= cnt,
                        p1 + cnt <= v@.len(),
                        v@.len() <= usize::MAX,
                        out@ == v@.subrange(p1 as int, p1 + i as int),
                    decreases cnt - i,
                {
                    out.push(v[p1 + i]);
                    proof {
                        assert(out@ =~= v@.subrange(p1 as int, p1 + i + 1));
                    }
                    i += 1;
                }
                Some((out, p1 + cnt))
            } else {
                None
            }
        },
        None => None,
    }
}

fn read_type(v: &Vec<u8>, p: usize) -> (r: Option<(TypeTag, usize)>)
    ensures
        match r {
            Some((x, q)) => sp_type(v@, p as int) == Some((x, q as int)) && q <= v@.len(),
            None => sp_type(v@, p as int) is None,
        },
{
    match read_u8(v, p) {
        Some((t, p1)) => {
            if t == 0 {
                Some((TypeTag::Bool, p1))
            } else if t == 1 {
                Some((TypeTag::U8, p1))
            } else if t == 2 {
                Some((TypeTag::U64, p1))
            } else if t == 3 {
                Some((TypeTag::U128, p1))
            } else if t == 4 {
                Some((TypeTag::Address, p1))
            } else if t == 5 {
                Some((TypeTag::Signer, p1))
            } else if t == 6 {
                Some((TypeTag::Bytes, p1))
            } else {
                None
            }
        },
        None => None,
    }
}

fn read_id(v: &Vec<u8>, p: usize) -> (r: Option<(ModuleIdentity, usize)>)
    ensures
        match r {
            Some((x, q)) => sp_id(v@, p as int) == Some((x@, q as int)) && q <= v@.len(),
            None => sp_id(v@, p as int) is None,
        },
{
    match read_u128(v, p) {
        Some((addr, p1)) => match read_name(v, p1) {
            Some((nm, p2)) => Some((ModuleIdentity { address: addr, name: nm }, p2)),
            None => None,
        },
        None => None,
    }
}

fn read_types(v: &Vec<u8>, p: usize, n: u8) -> (r: Option<(Vec<TypeTag>, usize)>)
    ensures
        r is Some ==> sp_types(v@, p as int, n as nat) == Some(
            (r->Some_0.0@, r->Some_0.1 as int),
        ),
        r is None ==> sp_types(v@, p as int, n as nat) is None,
{
    let cnt = n as usize;
    let mut out: Vec<TypeTag> = Vec::new();
    let mut i: usize = 0;
    let mut q = p;
    while i < cnt
        invariant
            i <= cnt,
            sp_types(v@, p as int, n as nat) == match sp_types(v@, q as int, (cnt - i) as nat) {
                Some((s, e)) => Some::<(Seq<TypeTag>, int)>((out@ + s, e)),
                None => None::<(Seq<TypeTag>, int)>,
            },
        decreases cnt - i,
    {
        match read_type(v, q) {
            Some((x, p1)) => {
                proof {
                    let rest = sp_types(v@, p1 as int, (cnt - i - 1) as nat);
                    if rest is Some {
                        let (xs, e) = rest->Some_0;
                        assert((out@ + seq![x]) + xs =~= out@ + (seq![x] + xs));
                    }
                    assert(out@.push(x) =~= out@ + seq![x]);
                }
                out.push(x);
                q = p1;
            },
            None => {
                return None;
            },
        }
        i += 1;
    }
    proof {
        assert(out@ + Seq::<TypeTag>::empty() =~= out@);
    }
    Some((out, q))
}

fn read_ids(v: &Vec<u8>, p: usize, n: u8) -> (r: Option<(Vec<ModuleIdentity>, usize)>)
    ensures
        match r {
            Some((xs, q)) => sp_ids(v@, p as int, n as nat) == Some((ids_view(xs@), q as int)),
            None => sp_ids(v@, p as int, n as nat) is None,
        },
{
    let cnt = n as usize;
    let mut out: Vec<ModuleIdentity> = Vec::new();
    let mut i: usize = 0;
    let mut q = p;
    while i < cnt
        invariant
            i <= cnt,
            sp_ids(v@, p as int, n as nat) == match sp_ids(v@, q as int, (cnt - i) as nat) {
                Some((s, e)) => Some::<(Seq<IdView>, int)>((ids_view(out@) + s, e)),
                None => None::<(Seq<IdView>, int)>,
            },
        decreases cnt - i,
    {
        match read_id(v, q) {
            Some((x, p1)) => {
                proof {
                    let rest = sp_ids(v@, p1 as int, (cnt - i - 1) as nat);
                    if rest is Some {
                        let (xs, e) = rest->Some_0;
                        assert((ids_view(out@) + seq![x@]) + xs =~= ids_view(out@) + (seq![x@]
                            + xs));
                    }
                    lemma_ids_view_push(out@, x);
                    assert(ids_view(out@).push(x@) =~= ids_view(out@) + seq![x@]);
                }
                out.push(x);
                q = p1;
            },
            None => {
                return None;
            },
        }
        i += 1;
    }
    proof {
        assert(ids_view(out@) + Seq::<IdView>::empty() =~= ids_view(out@));
    }
    Some((out, q))
}

fn read_field(v: &Vec<u8>, p: usize) -> (r: Option<(FieldDef, usize)>)
    ensures
        match r {
            Some((x, q)) => sp_field(v@, p as int) == Some((x@, q as int)),
            None => sp_field(v@, p as int) is None,
        },
{
    match read_name(v, p) {
        Some((nm, p1)) => match read_type(v, p1) {
            Some((t, p2)) => Some((FieldDef { name: nm, ty: t }, p2)),
            None => None,
        },
        None => None,
    }
}

fn read_fields(v: &Vec<u8>, p: usize, n: u8) -> (r: Option<(Vec<FieldDef>, usize)>)
    ensures
        match r {
            Some((xs, q)) => sp_fields(v@, p as int, n as nat) == Some(
                (fields_view(xs@), q as int),
            ),
            None => sp_fields(v@, p as int, n as nat) is None,
        },
{
    let cnt = n as usize;
    let mut out: Vec<FieldDef> = Vec::new();
    let mut i: usize = 0;
    let mut q = p;
    while i < cnt
        invariant
            i <= cnt,
            sp_fields(v@, p as int, n as nat) == match sp_fields(v@, q as int, (cnt - i) as nat) {
                Some((s, e)) => Some::<(Seq<FieldView>, int)>((fields_view(out@) + s, e)),
                None => None::<(Seq<FieldView>, int)>,
            },
        decreases cnt - i,
    {
        match read_field(v, q) {
            Some((x, p1)) => {
                proof {
                    let rest = sp_fields(v@, p1 as int, (cnt - i - 1) as nat);
                    if rest is Some {
                        let (xs, e) = rest->Some_0;
                        assert((fields_view(out@) + seq![x@]) + xs =~= fields_view(out@) + (
                        seq![x@] + xs));
                    }
                    lemma_fields_view_push(out@, x);
                    assert(fields_view(out@).push(x@) =~= fields_view(out@) + seq![x@]);
                }
                out.push(x);
                q = p1;
            },
            None => {
                return None;
            },
        }
        i += 1;
    }
    proof {
        assert(fields_view(out@) + Seq::<FieldView>::empty() =~= fields_view(out@));
    }
    Some((out, q))
}

fn read_struct(v: &Vec<u8>, p: usize) -> (r: Option<(StructDef, usize)>)
    ensures
        match r {
            Some((x, q)) => sp_struct(v@, p as int) == Some((x@, q as int)),
            None => sp_struct(v@, p as int) is None,
        },
{
    match read_name(v, p) {
        Some((nm, p1)) => match read_u8(v, p1) {
            Some((ab, p2)) => match read_u8(v, p2) {
                Some((n, p3)) => match read_fields(v, p3, n) {
                    Some((fs, p4)) => Some(
                        (StructDef { name: nm, abilities: ab, fields: fs }, p4),
                    ),
                    None => None,
                },
                None => None,
            },
            None => None,
        },
        None => None,
    }
}

fn read_structs(v: &Vec<u8>, p: usize, n: u8) -> (r: Option<(Vec<StructDef>, usize)>)
    ensures
        match r {
            Some((xs, q)) => sp_structs(v@, p as int, n as nat) == Some(
                (structs_view(xs@), q as int),
            ),
            None => sp_structs(v@, p as int, n as nat) is None,
        },
{
    let cnt = n as usize;
    let mut out: Vec<StructDef> = Vec::new();
    let mut i: usize = 0;
    let mut q = p;
    while i < cnt
        invariant
            i <= cnt,
            sp_structs(v@, p as int, n as nat) == match sp_structs(v@, q as int, (cnt - i) as nat) {
                Some((s, e)) => Some::<(Seq<StructView>, int)>((structs_view(out@) + s, e)),
                None => None::<(Seq<StructView>, int)>,
            },
        decreases cnt - i,
    {
        match read_struct(v, q) {
            Some((x, p1)) => {
                proof {
                    let rest = sp_structs(v@, p1 as int, (cnt - i - 1) as nat);
                    if rest is Some {
                        let (xs, e) = rest->Some_0;
                        assert((structs_view(out@) + seq![x@]) + xs =~= structs_view(out@) + (
                        seq![x@] + xs));
                    }
                    lemma_structs_view_push(out@, x);
                    assert(structs_view(out@).push(x@) =~= structs_view(out@) + seq![x@]);
                }
                out.push(x);
                q = p1;
            },
            None => {
                return None;
            },
        }
        i += 1;
    }
    proof {
        assert(structs_view(out@) + Seq::<StructView>::empty() =~= structs_view(out@));
    }
    Some((out, q))
}

fn read_fun(v: &Vec<u8>, p: usize) -> (r: Option<(FunctionDef, usize)>)
    ensures
        match r {
            Some((x, q)) => sp_fun(v@, p as int) == Some((x@, q as int)),
            None => sp_fun(v@, p as int) is None,
        },
{
    match read_name(v, p) {
        Some((nm, p1)) => match read_u8(v, p1) {
            Some((vb, p2)) => {
                let vis = if vb == 0 {
                    Visibility::Public
                } else if vb == 1 {
                    Visibility::Friend
                } else if vb == 2 {
                    Visibility::Private
                } else {
                    return None;
                };
                match read_u8(v, p2) {
                    Some((np, p3)) => match read_types(v, p3, np) {
                        Some((ps, p4)) => match read_u8(v, p4) {
                            Some((nr, p5)) => match read_types(v, p5, nr) {
                                Some((rs, p6)) => Some(
                                    (
                                        FunctionDef {
                                            name: nm,
                                            visibility: vis,
                                            params: ps,
                                            returns: rs,
                                        },
                                        p6,
                                    ),
                                ),
                                None => None,
                            },
                            None => None,
                        },
                        None => None,
                    },
                    None => None,
                }
            },
            None => None,
        },
        None => None,
    }
}

fn read_funs(v: &Vec<u8>, p: usize, n: u8) -> (r: Option<(Vec<FunctionDef>, usize)>)
    ensures
        match r {
            Some((xs, q)) => sp_funs(v@, p as int, n as nat) == Some((funs_view(xs@), q as int)),
            None => sp_funs(v@, p as int, n as nat) is None,
        },
{
    let cnt = n as usize;
    let mut out: Vec<FunctionDef> = Vec::new();
    let mut i: usize = 0;
    let mut q = p;
    while i < cnt
        invariant
            i <= cnt,
            sp_funs(v@, p as int, n as nat) == match sp_funs(v@, q as int, (cnt - i) as nat) {
                Some((s, e)) => Some::<(Seq<FunView>, int)>((funs_view(out@) + s, e)),
                None => None::<(Seq<FunView>, int)>,
            },
        decreases cnt - i,
    {
        match read_fun(v, q) {
            Some((x, p1)) => {
                proof {
                    let rest = sp_funs(v@, p1 as int, (cnt - i - 1) as nat);
                    if rest is Some {
                        let (xs, e) = rest->Some_0;
                        assert((funs_view(out@) + seq![x@]) + xs =~= funs_view(out@) + (seq![x@]
                            + xs));
                    }
                    lemma_funs_view_push(out@, x);
                    assert(funs_view(out@).push(x@) =~= funs_view(out@) + seq![x@]);
                }
                out.push(x);
                q = p1;
            },
            None => {
                return None;
            },
        }
        i += 1;
    }
    proof {
        assert(funs_view(out@) + Seq::<FunView>::empty() =~= funs_view(out@));
    }
    Some((out, q))
}

/// Deserialize and verify one module blob. `None` means the blob is malformed
/// or fails verification; no partial result is produced.
pub fn decode_module(v: &Vec<u8>) -> (r: Option<VerifiedModule>)
    ensures
        match r {
            Some(m) => sp_module(v@) == Some(m@),
            None => sp_module(v@) is None,
        },
{
    let (addr, p1) = match read_u128(v, 0) {
        Some(x) => x,
        None => {
            return None;
        },
    };
    let (name, p2) = match read_name(v, p1) {
        Some(x) => x,
        None => {
            return None;
        },
    };
    let (nd, p3) = match read_u8(v, p2) {
        Some(x) => x,
        None => {
            return None;
        },
    };
    let (deps, p4) = match read_ids(v, p3, nd) {
        Some(x) => x,
        None => {
            return None;
        },
    };
    let (ns, p5) = match read_u8(v, p4) {
        Some(x) => x,
        None => {
            return None;
        },
    };
    let (structs, p6) = match read_structs(v, p5, ns) {
        Some(x) => x,
        None => {
            return None;
        },
    };
    let (nf, p7) = match read_u8(v, p6) {
        Some(x) => x,
        None => {
            return None;
        },
    };
    let (functions, p8) = match read_funs(v, p7, nf) {
        Some(x) => x,
        None => {
            return None;
        },
    };
    if p8 != v.len() {
        return None;
    }
    let m = VerifiedModule { address: addr, name, deps, structs, functions };
    proof {
        assert(sp_module(v@) == Some(m@));
    }
    Some(m)
}

/// Deserialize a script blob into its declared parameter list.
pub fn decode_script_params(v: &Vec<u8>) -> (r: Option<Vec<TypeTag>>)
    ensures
        match r {
            Some(ps) => sp_script_params(v@) == Some(ps@),
            None => sp_script_params(v@) is None,
        },
{
    let (n, p1) = match read_u8(v, 0) {
        Some(x) => x,
        None => {
            return None;
        },
    };
    let (ps, p2) = match read_types(v, p1, n) {
        Some(x) => x,
        None => {
            return None;
        },
    };
    if p2 != v.len() {
        return None;
    }
    Some(ps)
}

} // verus!
