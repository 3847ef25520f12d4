use vstd::prelude::*;
use crate::bytes_util::{bytes_eq, dup_bytes};
use crate::module::{
    FieldDef, FunView, FunctionDef, NormView, NormalizedModule, StructDef, StructView,
};
use crate::types::TypeTag;

verus! {

/// Why an update is not compatible. A struct reason concerns a struct of the
/// old module, a function reason a public function of the old module.
#[derive(Copy, Clone, PartialEq, Eq, Structural, Debug)]
pub enum CompatReasonKind {
    StructMissing,
    StructLayoutChanged,
    FunctionMissing,
    FunctionSignatureChanged,
}

/// One diagnostic of the compatibility checker: what broke, and the name of
/// the struct or function it broke on.
#[derive(Debug, Clone, PartialEq, Eq)]
pub struct CompatReason {
    pub kind: CompatReasonKind,
    pub name: Vec<u8>,
}

#[verifier::ext_equal]
pub ghost struct ReasonView {
    pub kind: CompatReasonKind,
    pub name: Seq<u8>,
}

impl View for CompatReason {
    type V = ReasonView;

    open spec fn view(&self) -> ReasonView {
        ReasonView { kind: self.kind, name: self.name@ }
    }
}

pub open spec fn reasons_view(s: Seq<CompatReason>) -> Seq<ReasonView> {
    s.map_values(|r: CompatReason| r@)
}

pub proof fn lemma_reasons_view_push(s: Seq<CompatReason>, x: CompatReason)
    ensures
        reasons_view(s.push(x)) == reasons_view(s).push(x@),
{
    assert(reasons_view(s.push(x)) =~= reasons_view(s).push(x@));
}

/// The verdict of one compatibility comparison: compatible, or every violation
/// found, in the order old declarations are scanned.
#[derive(Debug, Clone, PartialEq, Eq)]
pub struct CompatibilityVerdict {
    pub fully_compatible: bool,
    pub reasons: Vec<CompatReason>,
}

impl CompatibilityVerdict {
    pub fn is_fully_compatible(&self) -> (r: bool)
        ensures
            r == self.fully_compatible,
    {
        self.fully_compatible
    }
}

/// Some struct of this name is declared.
pub open spec fn struct_named(structs: Seq<StructView>, name: Seq<u8>) -> bool {
    exists|j: int| 0 <= j < structs.len() && structs[j].name == name
}

/// The old struct survives unchanged: same name, same abilities, same fields.
pub open spec fn struct_kept(s: StructView, new_structs: Seq<StructView>) -> bool {
    exists|j: int| 0 <= j < new_structs.len() && new_structs[j] == s
}

/// Some public function of this name is declared.
pub open spec fn fun_named(funs: Seq<FunView>, name: Seq<u8>) -> bool {
    exists|j: int| 0 <= j < funs.len() && funs[j].name == name
}

/// The old public function survives with an identical signature.
pub open spec fn fun_kept(f: FunView, new_funs: Seq<FunView>) -> bool {
    exists|j: int| 0 <= j < new_funs.len() && new_funs[j] == f
}

/// Full compatibility: every old struct keeps its layout and every old public
/// function keeps its signature.
pub open spec fn compat_spec(old: NormView, new: NormView) -> bool {
    (forall|i: int| 0 <= i < old.structs.len() ==> struct_kept(old.structs[i], new.structs)) && (
    forall|i: int| 0 <= i < old.functions.len() ==> fun_kept(old.functions[i], new.functions))
}

/// A diagnostic names a declaration of the old module that the new module
/// really breaks, with the right kind.
pub open spec fn reason_valid(r: ReasonView, old: NormView, new: NormView) -> bool {
    match r.kind {
        CompatReasonKind::StructMissing => (exists|i: int|
            0 <= i < old.structs.len() && old.structs[i].name == r.name && !struct_kept(
                old.structs[i],
                new.structs,
            )) && !struct_named(new.structs, r.name),
        CompatReasonKind::StructLayoutChanged => (exists|i: int|
            0 <= i < old.structs.len() && old.structs[i].name == r.name && !struct_kept(
                old.structs[i],
                new.structs,
            )) && struct_named(new.structs, r.name),
        CompatReasonKind::FunctionMissing => (exists|i: int|
            0 <= i < old.functions.len() && old.functions[i].name == r.name && !fun_kept(
                old.functions[i],
                new.functions,
            )) && !fun_named(new.functions, r.name),
        CompatReasonKind::FunctionSignatureChanged => (exists|i: int|
            0 <= i < old.functions.len() && old.functions[i].name == r.name && !fun_kept(
                old.functions[i],
                new.functions,
            )) && fun_named(new.functions, r.name),
    }
}

/// Some diagnostic in the sequence names this declaration.
pub open spec fn reason_named(rs: Seq<ReasonView>, name: Seq<u8>) -> bool {
    exists|k: int| 0 <= k < rs.len() && rs[k].name == name
}

pub proof fn lemma_reason_named_push(rs: Seq<ReasonView>, x: ReasonView, name: Seq<u8>)
    requires
        reason_named(rs, name),
    ensures
        reason_named(rs.push(x), name),
{
    let k = choose|k: int| 0 <= k < rs.len() && rs[k].name == name;
    assert(rs.push(x)[k] == rs[k]);
}

fn types_eq(a: &Vec<TypeTag>, b: &Vec<TypeTag>) -> (r: bool)
    ensures
        r == (a@ == b@),
{
    if a.len() != b.len() {
        return false;
    }
    let mut i: usize = 0;
    while i < a.len()
        invariant
            i <= a.len(),
            a@.len() == b@.len(),
            forall|j: int| 0 <= j < i ==> a@[j] == b@[j],
        decreases a.len() - i,
    {
        if a[i] != b[i] {
            return false;
        }
        i += 1;
    }
    proof {
        assert(a@ =~= b@);
    }
    true
}

fn field_eq(a: &FieldDef, b: &FieldDef) -> (r: bool)
    ensures
        r == (a@ == b@),
{
    let r = bytes_eq(&a.name, &b.name) && a.ty == b.ty;
    proof {
        if r {
            assert(a@ =~= b@);
        }
    }
    r
}

fn struct_eq(a: &StructDef, b: &StructDef) -> (r: bool)
    ensures
        r == (a@ == b@),
{
    if !bytes_eq(&a.name, &b.name) || a.abilities != b.abilities {
        return false;
    }
    if a.fields.len() != b.fields.len() {
        proof {
            assert(a@.fields.len() == a.fields@.len());
            assert(b@.fields.len() == b.fields@.len());
        }
        return false;
    }
    let mut i: usize = 0;
    while i < a.fields.len()
        invariant
            i <= a.fields.len(),
            a.fields@.len() == b.fields@.len(),
            forall|j: int| 0 <= j < i ==> a.fields@[j]@ == b.fields@[j]@,
        decreases a.fields.len() - i,
    {
        if !field_eq(&a.fields[i], &b.fields[i]) {
            proof {
                assert(a@.fields[i as int] != b@.fields[i as int]);
            }
            return false;
        }
        i += 1;
    }
    proof {
        assert(a@.fields =~= b@.fields);
        assert(a@ =~= b@);
    }
    true
}

fn fun_eq(a: &FunctionDef, b: &FunctionDef) -> (r: bool)
    ensures
        r == (a@ == b@),
{
    let r = bytes_eq(&a.name, &b.name) && a.visibility == b.visibility && types_eq(
        &a.params,
        &b.params,
    ) && types_eq(&a.returns, &b.returns);
    proof {
        if r {
            assert(a@ =~= b@);
        }
    }
    r
}

/// Scan the new module's structs for the old struct's name and for an
/// unchanged copy of it.
fn find_struct(list: &Vec<StructDef>, s: &StructDef) -> (r: (bool, bool))
    ensures
        r.0 == struct_named(crate::module::structs_view(list@), s@.name),
        r.1 == struct_kept(s@, crate::module::structs_view(list@)),
{
    let ghost target = crate::module::structs_view(list@);
    let mut named = false;
    let mut kept = false;
    let mut j: usize = 0;
    while j < list.len()
        invariant
            j <= list.len(),
            target == crate::module::structs_view(list@),
            target.len() == list@.len(),
            named == exists|k: int| 0 <= k < j && target[k].name == s@.name,
            kept == exists|k: int| 0 <= k < j && target[k] == s@,
        decreases list.len() - j,
    {
        proof {
            assert(target[j as int] == list@[j as int]@);
        }
        if bytes_eq(&list[j].name, &s.name) {
            named = true;
        }
        if struct_eq(&list[j], s) {
            kept = true;
        }
        j += 1;
    }
    (named, kept)
}

/// Scan the new module's public functions for the old function's name and for
/// an identical signature.
fn find_fun(list: &Vec<FunctionDef>, f: &FunctionDef) -> (r: (bool, bool))
    ensures
        r.0 == fun_named(crate::module::funs_view(list@), f@.name),
        r.1 == fun_kept(f@, crate::module::funs_view(list@)),
{
    let ghost target = crate::module::funs_view(list@);
    let mut named = false;
    let mut kept = false;
    let mut j: usize = 0;
    while j < list.len()
        invariant
            j <= list.len(),
            target == crate::module::funs_view(list@),
            target.len() == list@.len(),
            named == exists|k: int| 0 <= k < j && target[k].name == f@.name,
            kept == exists|k: int| 0 <= k < j && target[k] == f@,
        decreases list.len() - j,
    {
        proof {
            assert(target[j as int] == list@[j as int]@);
        }
        if bytes_eq(&list[j].name, &f.name) {
            named = true;
        }
        if fun_eq(&list[j], f) {
            kept = true;
        }
        j += 1;
    }
    (named, kept)
}

/// Compare two normalized modules. The verdict is compatible exactly when
/// every old struct layout and every old public function signature survives;
/// otherwise the reasons name every violated declaration.
pub fn check(old: &NormalizedModule, new: &NormalizedModule) -> (v: CompatibilityVerdict)
    ensures
        v.fully_compatible == compat_spec(old@, new@),
        v.fully_compatible <==> v.reasons@.len() == 0,
        forall|i: int|
            0 <= i < old@.structs.len() && !struct_kept(old@.structs[i], new@.structs) ==> reason_named(
                reasons_view(v.reasons@),
                old@.structs[i].name,
            ),
        forall|i: int|
            0 <= i < old@.functions.len() && !fun_kept(old@.functions[i], new@.functions) ==> reason_named(
                reasons_view(v.reasons@),
                old@.functions[i].name,
            ),
        forall|k: int|
            0 <= k < v.reasons@.len() ==> reason_valid(reasons_view(v.reasons@)[k], old@, new@),
{
    let mut reasons: Vec<CompatReason> = Vec::new();
    let mut i: usize = 0;
    while i < old.structs.len()
        invariant
            i <= old.structs.len(),
            old@.structs.len() == old.structs@.len(),
            forall|j: int|
                0 <= j < i && !struct_kept(old@.structs[j], new@.structs) ==> reason_named(
                    reasons_view(reasons@),
                    old@.structs[j].name,
                ),
            forall|k: int|
                0 <= k < reasons@.len() ==> reason_valid(reasons_view(reasons@)[k], old@, new@),
            (reasons@.len() == 0) == (forall|j: int| 0 <= j < i ==> struct_kept(old@.structs[j], new@.structs)),
        decreases old.structs.len() - i,
    {
        let (named, kept) = find_struct(&new.structs, &old.structs[i]);
        if !kept {
            let kind = if named {
                CompatReasonKind::StructLayoutChanged
            } else {
                CompatReasonKind::StructMissing
            };
            let reason = CompatReason { kind, name: dup_bytes(&old.structs[i].name) };
            proof {
                lemma_reasons_view_push(reasons@, reason);
                assert forall|nm: Seq<u8>|
                    reason_named(reasons_view(reasons@), nm) implies reason_named(
                    reasons_view(reasons@.push(reason)),
                    nm,
                ) by {
                    lemma_reason_named_push(reasons_view(reasons@), reason@, nm);
                }
                assert(reasons_view(reasons@.push(reason)).last() == reason@);
                assert(old@.structs[i as int] == old.structs@[i as int]@);
                assert(old@.structs[i as int].name == reason@.name && !struct_kept(
                    old@.structs[i as int],
                    new@.structs,
                ));
                assert(reason_valid(reason@, old@, new@));
            }
            reasons.push(reason);
            proof {
                assert(reason_named(reasons_view(reasons@), old@.structs[i as int].name)) by {
                    assert(reasons_view(reasons@)[reasons@.len() - 1].name == old@.structs[
                        i as int
                    ].name);
                }
            }
        }
        i += 1;
    }
    let ghost structs_clean = forall|j: int|
        0 <= j < old@.structs.len() ==> struct_kept(old@.structs[j], new@.structs);
    let mut k: usize = 0;
    while k < old.functions.len()
        invariant
            k <= old.functions.len(),
            old@.functions.len() == old.functions@.len(),
            old@.structs.len() == old.structs@.len(),
            structs_clean == (forall|j: int|
                0 <= j < old@.structs.len() ==> struct_kept(old@.structs[j], new@.structs)),
            forall|j: int|
                0 <= j < old@.structs.len() && !struct_kept(old@.structs[j], new@.structs) ==> reason_named(
                    reasons_view(reasons@),
                    old@.structs[j].name,
                ),
            forall|j: int|
                0 <= j < k && !fun_kept(old@.functions[j], new@.functions) ==> reason_named(
                    reasons_view(reasons@),
                    old@.functions[j].name,
                ),
            forall|q: int|
                0 <= q < reasons@.len() ==> reason_valid(reasons_view(reasons@)[q], old@, new@),
            (reasons@.len() == 0) == (structs_clean && (forall|j: int|
                0 <= j < k ==> fun_kept(old@.functions[j], new@.functions))),
        decreases old.functions.len() - k,
    {
        let (named, kept) = find_fun(&new.functions, &old.functions[k]);
        if !kept {
            let kind = if named {
                CompatReasonKind::FunctionSignatureChanged
            } else {
                CompatReasonKind::FunctionMissing
            };
            let reason = CompatReason { kind, name: dup_bytes(&old.functions[k].name) };
            proof {
                lemma_reasons_view_push(reasons@, reason);
                assert forall|nm: Seq<u8>|
                    reason_named(reasons_view(reasons@), nm) implies reason_named(
                    reasons_view(reasons@.push(reason)),
                    nm,
                ) by {
                    lemma_reason_named_push(reasons_view(reasons@), reason@, nm);
                }
                assert(old@.functions[k as int] == old.functions@[k as int]@);
                assert(old@.functions[k as int].name == reason@.name && !fun_kept(
                    old@.functions[k as int],
                    new@.functions,
                ));
                assert(reason_valid(reason@, old@, new@));
            }
            reasons.push(reason);
            proof {
                assert(reason_named(reasons_view(reasons@), old@.functions[k as int].name)) by {
                    assert(reasons_view(reasons@)[reasons@.len() - 1].name == old@.functions[
                        k as int
                    ].name);
                }
            }
        }
        k += 1;
    }
    let fully_compatible = reasons.len() == 0;
    CompatibilityVerdict { fully_compatible, reasons }
}

} // verus!
