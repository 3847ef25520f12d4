use vstd::prelude::*;
use crate::bytes_util::{bytes_eq, dup_bytes};
use crate::compat::{
    check, compat_spec, fun_kept, reason_named, reason_valid, reasons_view, struct_kept, ReasonView,
};
use crate::decode::{decode_module, sp_module};
use crate::errors::{LoadError, PublishError};
use crate::gas::GasStatus;
use crate::loader::LoaderCache;
use crate::module::{
    dup_id, normalize, normalize_view, IdView, ModuleIdentity, ModuleView, NormView,
    VerifiedModule,
};
use crate::args::{args_verdict, arg_views, vals_view, verify_arguments, ArgsVerdict};
use crate::decode::{decode_script_params, sp_script_params};
use crate::module::{dup_types, funs_view, FunView};
use crate::store::DataStore;
use crate::types::{Value, Visibility};
use crate::errors::VerifyError;
use crate::PublishModuleBundleOption;

verus! {

pub open spec fn blob_views(bundle: Seq<Vec<u8>>) -> Seq<Seq<u8>> {
    bundle.map_values(|b: Vec<u8>| b@)
}

pub open spec fn vms_view(ms: Seq<VerifiedModule>) -> Seq<ModuleView> {
    ms.map_values(|m: VerifiedModule| m@)
}

/// Whether a blob deserializes and verifies as a module.
pub open spec fn decode_ok(b: Seq<u8>) -> bool {
    sp_module(b) is Some
}

/// The module a well-formed blob denotes.
pub open spec fn dmod(b: Seq<u8>) -> ModuleView {
    sp_module(b)->Some_0
}

pub open spec fn mods_of(bundle: Seq<Seq<u8>>) -> Seq<ModuleView> {
    bundle.map_values(|b: Seq<u8>| dmod(b))
}

pub open spec fn first_malformed(bundle: Seq<Seq<u8>>, i: int) -> Option<int>
    decreases bundle.len() - i,
{
    if i < 0 || i >= bundle.len() {
        None
    } else if !decode_ok(bundle[i]) {
        Some(i)
    } else {
        first_malformed(bundle, i + 1)
    }
}

pub open spec fn first_addr_bad(mods: Seq<ModuleView>, sender: u128, i: int) -> Option<int>
    decreases mods.len() - i,
{
    if i < 0 || i >= mods.len() {
        None
    } else if mods[i].address != sender {
        Some(i)
    } else {
        first_addr_bad(mods, sender, i + 1)
    }
}

/// An earlier candidate already claims this candidate's identity.
pub open spec fn dup_before(mods: Seq<ModuleView>, j: int) -> bool {
    exists|k: int| 0 <= k < j && mods[k].id() == mods[j].id()
}

pub open spec fn first_dup(mods: Seq<ModuleView>, i: int) -> Option<int>
    decreases mods.len() - i,
{
    if i < 0 || i >= mods.len() {
        None
    } else if dup_before(mods, i) {
        Some(i)
    } else {
        first_dup(mods, i + 1)
    }
}

pub ghost enum UpdKind {
    OnlyNew,
    StoredInvalid,
    Incompatible,
}

/// How updating one candidate against the store fails, if it does. The gates
/// run in order: existence, the only-new policy, loadability of the committed
/// module, then compatibility unless forced.
pub open spec fn update_violation(
    store: Map<IdView, Seq<u8>>,
    m: ModuleView,
    opt: PublishModuleBundleOption,
) -> Option<UpdKind> {
    if !store.contains_key(m.id()) {
        None
    } else if opt.only_new_module {
        Some(UpdKind::OnlyNew)
    } else if !decode_ok(store[m.id()]) {
        Some(UpdKind::StoredInvalid)
    } else if !compat_spec(normalize_view(dmod(store[m.id()])), normalize_view(m))
        && !opt.force_publish {
        Some(UpdKind::Incompatible)
    } else {
        None
    }
}

pub open spec fn first_update_violation(
    store: Map<IdView, Seq<u8>>,
    mods: Seq<ModuleView>,
    opt: PublishModuleBundleOption,
    i: int,
) -> Option<(int, UpdKind)>
    decreases mods.len() - i,
{
    if i < 0 || i >= mods.len() {
        None
    } else {
        match update_violation(store, mods[i], opt) {
            Some(k) => Some((i, k)),
            None => first_update_violation(store, mods, opt, i + 1),
        }
    }
}

/// A dependency is resolvable if it is already committed or is itself a
/// candidate of this bundle.
pub open spec fn dep_resolved(
    store: Map<IdView, Seq<u8>>,
    mods: Seq<ModuleView>,
    d: IdView,
) -> bool {
    store.contains_key(d) || exists|j: int| 0 <= j < mods.len() && mods[j].id() == d
}

pub open spec fn cand_unresolved(
    store: Map<IdView, Seq<u8>>,
    mods: Seq<ModuleView>,
    i: int,
) -> bool {
    exists|d: int| 0 <= d < mods[i].deps.len() && !dep_resolved(store, mods, mods[i].deps[d])
}

pub open spec fn first_unresolved(
    store: Map<IdView, Seq<u8>>,
    mods: Seq<ModuleView>,
    i: int,
) -> Option<int>
    decreases mods.len() - i,
{
    if i < 0 || i >= mods.len() {
        None
    } else if cand_unresolved(store, mods, i) {
        Some(i)
    } else {
        first_unresolved(store, mods, i + 1)
    }
}


/// The first declared function of this name, in declaration order.
pub open spec fn find_fun_from(funs: Seq<FunView>, name: Seq<u8>, i: int) -> Option<FunView>
    decreases funs.len() - i,
{
    if i < 0 || i >= funs.len() {
        None
    } else if funs[i].name == name {
        Some(funs[i])
    } else {
        find_fun_from(funs, name, i + 1)
    }
}


pub open spec fn rem_view(s: Seq<usize>) -> Seq<int> {
    s.map_values(|x: usize| x as int)
}

pub open spec fn range_seq(n: int) -> Seq<int> {
    Seq::new(n as nat, |i: int| i)
}

/// A remaining candidate is removable when no dependency of it names any
/// still-remaining candidate: it can come first among what is left.
pub open spec fn removable(mods: Seq<ModuleView>, rem: Seq<int>, i: int) -> bool {
    forall|d: int, j: int|
        0 <= d < mods[rem[i]].deps.len() && 0 <= j < rem.len() ==> mods[rem[j]].id() != mods[rem[i]].deps[d]
}

pub open spec fn first_removable(mods: Seq<ModuleView>, rem: Seq<int>, i: int) -> Option<int>
    decreases rem.len() - i,
{
    if i < 0 || i >= rem.len() {
        None
    } else if removable(mods, rem, i) {
        Some(i)
    } else {
        first_removable(mods, rem, i + 1)
    }
}

/// Peel removable candidates until none are left (the in-bundle dependency
/// relation is acyclic and a topological order exists) or the rest are stuck
/// on one another (a cycle); a stuck peel names the first stuck candidate.
pub open spec fn peel(mods: Seq<ModuleView>, rem: Seq<int>) -> Option<int>
    decreases rem.len(),
{
    if rem.len() == 0 {
        None
    } else {
        match first_removable(mods, rem, 0) {
            Some(i) => if 0 <= i < rem.len() {
                peel(mods, rem.remove(i))
            } else {
                None
            },
            None => Some(rem[0]),
        }
    }
}

/// The outcome the publish pipeline owes for a bundle against a store, gate
/// by gate in candidate order.
pub ghost enum BundleVerdict {
    Accepted,
    Malformed { index: int },
    Address { index: int },
    Duplicate { index: int },
    OnlyNew { index: int },
    StoredInvalid { index: int },
    Incompatible { index: int },
    Unresolved { index: int },
    Cyclic { index: int },
}

pub open spec fn bundle_verdict(
    store: Map<IdView, Seq<u8>>,
    bundle: Seq<Seq<u8>>,
    sender: u128,
    opt: PublishModuleBundleOption,
) -> BundleVerdict {
    if first_malformed(bundle, 0) is Some {
        BundleVerdict::Malformed { index: first_malformed(bundle, 0)->Some_0 }
    } else {
        let mods = mods_of(bundle);
        if first_addr_bad(mods, sender, 0) is Some {
            BundleVerdict::Address { index: first_addr_bad(mods, sender, 0)->Some_0 }
        } else if first_dup(mods, 0) is Some {
            BundleVerdict::Duplicate { index: first_dup(mods, 0)->Some_0 }
        } else if first_update_violation(store, mods, opt, 0) is Some {
            let (i, k) = first_update_violation(store, mods, opt, 0)->Some_0;
            match k {
                UpdKind::OnlyNew => BundleVerdict::OnlyNew { index: i },
                UpdKind::StoredInvalid => BundleVerdict::StoredInvalid { index: i },
                UpdKind::Incompatible => BundleVerdict::Incompatible { index: i },
            }
        } else if first_unresolved(store, mods, 0) is Some {
            BundleVerdict::Unresolved { index: first_unresolved(store, mods, 0)->Some_0 }
        } else {
            match peel(mods, range_seq(bundle.len() as int)) {
                Some(x) => BundleVerdict::Cyclic { index: x },
                None => BundleVerdict::Accepted,
            }
        }
    }
}

/// What an incompatible-update error's diagnostics owe: they name every
/// broken declaration and nothing that is not broken.
pub open spec fn incompat_reasons_ok(rs: Seq<ReasonView>, old: NormView, new: NormView) -> bool {
    &&& rs.len() > 0
    &&& forall|i: int|
        0 <= i < old.structs.len() && !struct_kept(old.structs[i], new.structs) ==> reason_named(
            rs,
            old.structs[i].name,
        )
    &&& forall|i: int|
        0 <= i < old.functions.len() && !fun_kept(old.functions[i], new.functions)
            ==> reason_named(rs, old.functions[i].name)
    &&& forall|k: int| 0 <= k < rs.len() ==> reason_valid(rs[k], old, new)
}

/// Which error the pipeline owes for each rejecting verdict.
pub open spec fn error_matches(
    e: PublishError,
    v: BundleVerdict,
    store: Map<IdView, Seq<u8>>,
    bundle: Seq<Seq<u8>>,
) -> bool {
    match v {
        BundleVerdict::Accepted => false,
        BundleVerdict::Malformed { index } => e matches PublishError::MalformedModule {
            index: i,
        } && i as int == index,
        BundleVerdict::Address { index } => e matches PublishError::AddressMismatch { index: i }
            && i as int == index,
        BundleVerdict::Duplicate { index } => e matches PublishError::DuplicateModuleInBundle {
            index: i,
        } && i as int == index,
        BundleVerdict::OnlyNew { index } => e matches PublishError::OnlyNewModulesAllowed {
            index: i,
        } && i as int == index,
        BundleVerdict::StoredInvalid { index } => e matches PublishError::LoadInvalid { index: i }
            && i as int == index,
        BundleVerdict::Incompatible { index } => e matches PublishError::IncompatibleUpdate {
            index: i,
            reasons,
        } && i as int == index && incompat_reasons_ok(
            reasons_view(reasons@),
            normalize_view(dmod(store[mods_of(bundle)[index].id()])),
            normalize_view(mods_of(bundle)[index]),
        ),
        BundleVerdict::Unresolved { index } => e matches PublishError::BundleVerificationFailed {
            index: i,
        } && i as int == index,
        BundleVerdict::Cyclic { index } => e matches PublishError::BundleVerificationFailed {
            index: i,
        } && i as int == index,
    }
}

/// The store after committing each blob under its module's identity, in
/// bundle order.
pub open spec fn commit_map(
    store: Map<IdView, Seq<u8>>,
    bundle: Seq<Seq<u8>>,
    i: int,
) -> Map<IdView, Seq<u8>>
    decreases bundle.len() - i,
{
    if i < 0 || i >= bundle.len() {
        store
    } else {
        commit_map(store.insert(dmod(bundle[i]).id(), bundle[i]), bundle, i + 1)
    }
}

/// Executable identity equality on whole modules.
fn mod_id_eq(a: &VerifiedModule, b: &VerifiedModule) -> (r: bool)
    ensures
        r == (a@.id() == b@.id()),
{
    let r = a.address == b.address && bytes_eq(&a.name, &b.name);
    proof {
        if r {
            assert(a@.id() =~= b@.id());
        }
    }
    r
}

/// Whether some candidate of the bundle has this identity.
fn dep_in_bundle(mods: &Vec<VerifiedModule>, d: &ModuleIdentity) -> (r: bool)
    ensures
        r == exists|j: int| 0 <= j < vms_view(mods@).len() && vms_view(mods@)[j].id() == d@,
{
    let mut found = false;
    let mut j: usize = 0;
    while j < mods.len()
        invariant
            j <= mods@.len(),
            found == exists|k: int| 0 <= k < j && vms_view(mods@)[k].id() == d@,
        decreases mods.len() - j,
    {
        proof {
            assert(vms_view(mods@)[j as int] == mods@[j as int]@);
        }
        if mods[j].address == d.address && bytes_eq(&mods[j].name, &d.name) {
            proof {
                assert(vms_view(mods@)[j as int].id() =~= d@);
            }
            found = true;
        }
        j += 1;
    }
    found
}


pub proof fn lemma_rem_view_push(s: Seq<usize>, x: usize)
    ensures
        rem_view(s.push(x)) == rem_view(s).push(x as int),
{
    assert(rem_view(s.push(x)) =~= rem_view(s).push(x as int));
}

pub proof fn lemma_rem_view_remove(s: Seq<usize>, i: int)
    requires
        0 <= i < s.len(),
    ensures
        rem_view(s.remove(i)) == rem_view(s).remove(i),
{
    assert(rem_view(s.remove(i)) =~= rem_view(s).remove(i));
}

/// Whether the k-th remaining candidate depends on no remaining candidate.
fn is_removable(mods: &Vec<VerifiedModule>, remaining: &Vec<usize>, k: usize) -> (r: bool)
    requires
        k < remaining@.len(),
        forall|x: int| 0 <= x < remaining@.len() ==> remaining@[x] < mods@.len(),
    ensures
        r == removable(vms_view(mods@), rem_view(remaining@), k as int),
{
    let ghost mv = vms_view(mods@);
    let ghost rem = rem_view(remaining@);
    let c = remaining[k];
    let nd = mods[c].deps.len();
    let mut d: usize = 0;
    while d < nd
        invariant
            d <= nd,
            c == remaining@[k as int],
            c < mods@.len(),
            k < remaining@.len(),
            mv == vms_view(mods@),
            rem == rem_view(remaining@),
            rem.len() == remaining@.len(),
            forall|x: int| 0 <= x < remaining@.len() ==> remaining@[x] < mods@.len(),
            nd == mods@[c as int].deps@.len(),
            forall|dd: int, j: int|
                0 <= dd < d && 0 <= j < rem.len() ==> mv[rem[j]].id() != mv[rem[k as int]].deps[dd],
        decreases nd - d,
    {
        proof {
            assert(mv[c as int] == mods@[c as int]@);
            assert(mv[c as int].deps[d as int] == mods@[c as int].deps@[d as int]@);
            assert(rem[k as int] == c as int);
        }
        let mut j: usize = 0;
        while j < remaining.len()
            invariant
                j <= remaining@.len(),
                d < nd,
                c == remaining@[k as int],
                c < mods@.len(),
                k < remaining@.len(),
                mv == vms_view(mods@),
                rem == rem_view(remaining@),
                rem.len() == remaining@.len(),
                forall|x: int| 0 <= x < remaining@.len() ==> remaining@[x] < mods@.len(),
                nd == mods@[c as int].deps@.len(),
                mv[c as int] == mods@[c as int]@,
                rem[k as int] == c as int,
                forall|dd: int, jj: int|
                    0 <= dd < d && 0 <= jj < rem.len() ==> mv[rem[jj]].id() != mv[rem[
                        k as int
                    ]].deps[dd],
                forall|jj: int|
                    0 <= jj < j ==> mv[rem[jj]].id() != mv[rem[k as int]].deps[d as int],
            decreases remaining.len() - j,
        {
            let t = remaining[j];
            proof {
                assert(rem[j as int] == t as int);
                assert(mv[t as int] == mods@[t as int]@);
            }
            if mods[t].address == mods[c].deps[d].address && bytes_eq(
                &mods[t].name,
                &mods[c].deps[d].name,
            ) {
                proof {
                    assert(mv[rem[j as int]].id() =~= mv[rem[k as int]].deps[d as int]);
                    assert(!removable(mv, rem, k as int));
                }
                return false;
            }
            proof {
                assert(mv[rem[j as int]].id() != mv[rem[k as int]].deps[d as int]);
            }
            j += 1;
        }
        d += 1;
    }
    proof {
        assert(removable(mv, rem, k as int));
    }
    true
}

/// The first remaining candidate with no in-set dependency, if any.
fn find_first_removable(mods: &Vec<VerifiedModule>, remaining: &Vec<usize>) -> (r: Option<usize>)
    requires
        forall|x: int| 0 <= x < remaining@.len() ==> remaining@[x] < mods@.len(),
    ensures
        match r {
            Some(k) => k < remaining@.len() && first_removable(
                vms_view(mods@),
                rem_view(remaining@),
                0,
            ) == Some(k as int),
            None => first_removable(vms_view(mods@), rem_view(remaining@), 0) is None,
        },
{
    let ghost mv = vms_view(mods@);
    let ghost rem = rem_view(remaining@);
    let mut k: usize = 0;
    while k < remaining.len()
        invariant
            k <= rem.len(),
            mv == vms_view(mods@),
            rem == rem_view(remaining@),
            rem.len() == remaining@.len(),
            forall|x: int| 0 <= x < remaining@.len() ==> remaining@[x] < mods@.len(),
            first_removable(mv, rem, 0) == first_removable(mv, rem, k as int),
        decreases remaining.len() - k,
    {
        if is_removable(mods, remaining, k) {
            return Some(k);
        }
        k += 1;
    }
    None
}

/// The session this core runs under: the persistent store it commits to and
/// the loader cache it fills, shared across one transaction's operations.
pub struct SessionAdapter {
    pub store: DataStore,
    pub cache: LoaderCache,
}

impl SessionAdapter {
    /// Every cache entry reflects the committed bytes of its identity: the
    /// cache never resurrects a module the store does not hold.
    pub open spec fn wf(self) -> bool {
        forall|k: IdView| #[trigger]
            self.cache@.contains_key(k) ==> self.store@.contains_key(k) && sp_module(self.store@[k])
                == Some(self.cache@[k])
    }

    /// A session over a store, with a cold cache.
    pub fn new(store: DataStore) -> (r: Self)
        ensures
            r.wf(),
            r.store@ == store@,
            r.cache@ == Map::<IdView, ModuleView>::empty(),
    {
        SessionAdapter { store, cache: LoaderCache::new() }
    }

    /// Drop every cached module, so the next load rereads the store.
    pub fn empty_loader_cache(&mut self)
        ensures
            final(self).wf(),
            final(self).store@ == old(self).store@,
            final(self).cache@ == Map::<IdView, ModuleView>::empty(),
    {
        self.cache.clear();
    }

    /// Return the cached module for this identity, or read its bytes from the
    /// store, verify them, cache and return the result. A failed verification
    /// caches nothing.
    pub fn load_module(&mut self, id: &ModuleIdentity) -> (r: Result<VerifiedModule, LoadError>)
        requires
            old(self).wf(),
        ensures
            final(self).wf(),
            final(self).store@ == old(self).store@,
            match r {
                Ok(m) => old(self).store@.contains_key(id@) && sp_module(old(self).store@[id@])
                    == Some(m@),
                Err(LoadError::NotFound) => !old(self).store@.contains_key(id@),
                Err(LoadError::Invalid) => old(self).store@.contains_key(id@) && sp_module(
                    old(self).store@[id@],
                ) is None,
            },
    {
        match self.cache.lookup(id) {
            Some(m) => Ok(m),
            None => {
                match self.store.get_module(id) {
                    None => Err(LoadError::NotFound),
                    Some(bytes) => {
                        match decode_module(&bytes) {
                            None => Err(LoadError::Invalid),
                            Some(m) => {
                                self.cache.insert(dup_id(id), crate::module::dup_module(&m));
                                Ok(m)
                            },
                        }
                    },
                }
            },
        }
    }

    /// Validate a bundle against the store, gate by gate: deserialize every
    /// blob, check ownership, intra-bundle uniqueness, the update policy and
    /// compatibility per candidate, and dependency resolvability. Commits
    /// nothing and charges no gas.
    pub fn verify_module_bundle(
        &mut self,
        modules: &Vec<Vec<u8>>,
        sender: u128,
        gas_status: &mut GasStatus,
        option: PublishModuleBundleOption,
    ) -> (r: Result<Vec<VerifiedModule>, PublishError>)
        requires
            old(self).wf(),
        ensures
            final(self).wf(),
            final(self).store@ == old(self).store@,
            *final(gas_status) == *old(gas_status),
            ({
                let bundle = blob_views(modules@);
                let v = bundle_verdict(old(self).store@, bundle, sender, option);
                match r {
                    Ok(ms) => v is Accepted && vms_view(ms@) == mods_of(bundle),
                    Err(e) => error_matches(e, v, old(self).store@, bundle),
                }
            }),
    {
        let ghost bundle = blob_views(modules@);
        let ghost store0 = self.store@;
        let n = modules.len();
        let mut mods: Vec<VerifiedModule> = Vec::new();
        let mut i: usize = 0;
        while i < n
            invariant
                i <= n,
                n == modules@.len(),
                bundle == blob_views(modules@),
                bundle.len() == n,
                store0 == old(self).store@,
                *gas_status == *old(gas_status),
                self.wf(),
                self.store@ == store0,
                mods@.len() == i,
                forall|j: int| 0 <= j < i ==> #[trigger] decode_ok(bundle[j]),
                forall|j: int| 0 <= j < i ==> #[trigger] mods@[j]@ == dmod(bundle[j]),
                first_malformed(bundle, 0) == first_malformed(bundle, i as int),
            decreases n - i,
        {
            proof {
                assert(bundle[i as int] == modules@[i as int]@);
            }
            match decode_module(&modules[i]) {
                Some(m) => {
                    let ghost prev = mods@;
                    mods.push(m);
                    proof {
                        assert(decode_ok(bundle[i as int]));
                        assert(mods@[i as int]@ == dmod(bundle[i as int]));
                        assert(forall|j: int| 0 <= j < i ==> mods@[j] == prev[j]);
                    }
                },
                None => {
                    proof {
                        assert(first_malformed(bundle, i as int) == Some(i as int));
                    }
                    return Err(PublishError::MalformedModule { index: i });
                },
            }
            i += 1;
        }
        let ghost mods_v = mods_of(bundle);
        proof {
            assert(first_malformed(bundle, 0) is None);
            assert(vms_view(mods@) =~= mods_v);
        }
        let mut i: usize = 0;
        while i < n
            invariant
                i <= n,
                n == mods@.len(),
                bundle == blob_views(modules@),
                bundle.len() == n,
                store0 == old(self).store@,
                *gas_status == *old(gas_status),
                self.wf(),
                self.store@ == store0,
                mods_v == mods_of(bundle),
                mods_v.len() == n,
                vms_view(mods@) == mods_v,
                first_malformed(bundle, 0) is None,
                first_addr_bad(mods_v, sender, 0) == first_addr_bad(mods_v, sender, i as int),
            decreases n - i,
        {
            proof {
                assert(mods_v[i as int] == mods@[i as int]@);
            }
            if mods[i].address != sender {
                return Err(PublishError::AddressMismatch { index: i });
            }
            i += 1;
        }
        proof {
            assert(first_addr_bad(mods_v, sender, 0) is None);
        }
        let mut j: usize = 0;
        while j < n
            invariant
                j <= n,
                n == mods@.len(),
                bundle == blob_views(modules@),
                bundle.len() == n,
                store0 == old(self).store@,
                *gas_status == *old(gas_status),
                self.wf(),
                self.store@ == store0,
                mods_v == mods_of(bundle),
                mods_v.len() == n,
                vms_view(mods@) == mods_v,
                first_malformed(bundle, 0) is None,
                first_addr_bad(mods_v, sender, 0) is None,
                first_dup(mods_v, 0) == first_dup(mods_v, j as int),
            decreases n - j,
        {
            proof {
                assert(mods_v[j as int] == mods@[j as int]@);
            }
            let mut dup = false;
            let mut k: usize = 0;
            while k < j
                invariant
                    k <= j < n,
                    n == mods@.len(),
                    mods_v.len() == n,
                    vms_view(mods@) == mods_v,
                    dup == exists|x: int| 0 <= x < k && mods_v[x].id() == mods_v[j as int].id(),
                    bundle == blob_views(modules@),
                    bundle.len() == n,
                    store0 == old(self).store@,
                    *gas_status == *old(gas_status),
                    self.wf(),
                    self.store@ == store0,
                    mods_v == mods_of(bundle),
                    first_malformed(bundle, 0) is None,
                    first_addr_bad(mods_v, sender, 0) is None,
                    first_dup(mods_v, 0) == first_dup(mods_v, j as int),
                decreases j - k,
            {
                proof {
                    assert(mods_v[k as int] == mods@[k as int]@);
                    assert(mods_v[j as int] == mods@[j as int]@);
                }
                if mod_id_eq(&mods[k], &mods[j]) {
                    dup = true;
                }
                k += 1;
            }
            if dup {
                proof {
                    assert(dup_before(mods_v, j as int));
                }
                return Err(PublishError::DuplicateModuleInBundle { index: j });
            }
            proof {
                assert(!dup_before(mods_v, j as int));
            }
            j += 1;
        }
        proof {
            assert(first_dup(mods_v, 0) is None);
        }
        let mut i: usize = 0;
        while i < n
            invariant
                i <= n,
                n == mods@.len(),
                bundle == blob_views(modules@),
                bundle.len() == n,
                store0 == old(self).store@,
                *gas_status == *old(gas_status),
                mods_v == mods_of(bundle),
                mods_v.len() == n,
                vms_view(mods@) == mods_v,
                self.wf(),
                self.store@ == store0,
                first_malformed(bundle, 0) is None,
                first_addr_bad(mods_v, sender, 0) is None,
                first_dup(mods_v, 0) is None,
                first_update_violation(store0, mods_v, option, 0) == first_update_violation(
                    store0,
                    mods_v,
                    option,
                    i as int,
                ),
            decreases n - i,
        {
            proof {
                assert(mods_v[i as int] == mods@[i as int]@);
            }
            let id = mods[i].self_id();
            if self.store.exists_module(&id) {
                proof {
                    assert(store0.contains_key(mods_v[i as int].id()));
                }
                if option.only_new_module {
                    proof {
                        assert(update_violation(store0, mods_v[i as int], option) == Some(
                            UpdKind::OnlyNew,
                        ));
                    }
                    return Err(PublishError::OnlyNewModulesAllowed { index: i });
                }
                match self.load_module(&id) {
                    Ok(old_m) => {
                        proof {
                            assert(sp_module(store0[mods_v[i as int].id()]) == Some(old_m@));
                        }
                        let old_n = normalize(&old_m);
                        let new_n = normalize(&mods[i]);
                        let cv = check(&old_n, &new_n);
                        if !cv.fully_compatible && !option.force_publish {
                            proof {
                                assert(update_violation(store0, mods_v[i as int], option) == Some(
                                    UpdKind::Incompatible,
                                ));
                                assert(incompat_reasons_ok(
                                    reasons_view(cv.reasons@),
                                    normalize_view(dmod(store0[mods_v[i as int].id()])),
                                    normalize_view(mods_v[i as int]),
                                ));
                            }
                            return Err(
                                PublishError::IncompatibleUpdate { index: i, reasons: cv.reasons },
                            );
                        }
                        proof {
                            assert(update_violation(store0, mods_v[i as int], option) is None);
                        }
                    },
                    Err(e) => {
                        match e {
                            LoadError::Invalid => {
                                proof {
                                    assert(update_violation(store0, mods_v[i as int], option)
                                        == Some(UpdKind::StoredInvalid));
                                }
                                return Err(PublishError::LoadInvalid { index: i });
                            },
                            LoadError::NotFound => {
                                proof {
                                    assert(false);
                                }
                                return Err(PublishError::LoadInvalid { index: i });
                            },
                        }
                    },
                }
            } else {
                proof {
                    assert(!store0.contains_key(mods_v[i as int].id()));
                    assert(update_violation(store0, mods_v[i as int], option) is None);
                }
            }
            i += 1;
        }
        proof {
            assert(first_update_violation(store0, mods_v, option, 0) is None);
        }
        let mut i: usize = 0;
        while i < n
            invariant
                i <= n,
                n == mods@.len(),
                bundle == blob_views(modules@),
                bundle.len() == n,
                store0 == old(self).store@,
                *gas_status == *old(gas_status),
                mods_v == mods_of(bundle),
                mods_v.len() == n,
                vms_view(mods@) == mods_v,
                self.wf(),
                self.store@ == store0,
                first_malformed(bundle, 0) is None,
                first_addr_bad(mods_v, sender, 0) is None,
                first_dup(mods_v, 0) is None,
                first_update_violation(store0, mods_v, option, 0) is None,
                first_unresolved(store0, mods_v, 0) == first_unresolved(store0, mods_v, i as int),
            decreases n - i,
        {
            proof {
                assert(mods_v[i as int] == mods@[i as int]@);
            }
            let nd = mods[i].deps.len();
            let mut d: usize = 0;
            while d < nd
                invariant
                    d <= nd,
                    i < n,
                    n == mods@.len(),
                    bundle == blob_views(modules@),
                    bundle.len() == n,
                    store0 == old(self).store@,
                    *gas_status == *old(gas_status),
                    mods_v == mods_of(bundle),
                    mods_v.len() == n,
                    vms_view(mods@) == mods_v,
                    mods_v[i as int] == mods@[i as int]@,
                    nd == mods@[i as int].deps@.len(),
                    self.wf(),
                    self.store@ == store0,
                    first_malformed(bundle, 0) is None,
                    first_addr_bad(mods_v, sender, 0) is None,
                    first_dup(mods_v, 0) is None,
                    first_update_violation(store0, mods_v, option, 0) is None,
                    first_unresolved(store0, mods_v, 0) == first_unresolved(store0, mods_v, i as int),
                    forall|x: int|
                        0 <= x < d ==> dep_resolved(store0, mods_v, mods_v[i as int].deps[x]),
                decreases nd - d,
            {
                proof {
                    assert(mods_v[i as int].deps[d as int] == mods@[i as int].deps@[d as int]@);
                }
                let in_store = self.store.exists_module(&mods[i].deps[d]);
                let in_bundle = dep_in_bundle(&mods, &mods[i].deps[d]);
                if !in_store && !in_bundle {
                    proof {
                        assert(!dep_resolved(store0, mods_v, mods_v[i as int].deps[d as int]));
                        assert(cand_unresolved(store0, mods_v, i as int));
                    }
                    return Err(PublishError::BundleVerificationFailed { index: i });
                }
                proof {
                    assert(dep_resolved(store0, mods_v, mods_v[i as int].deps[d as int]));
                }
                d += 1;
            }
            proof {
                assert(!cand_unresolved(store0, mods_v, i as int));
            }
            i += 1;
        }
        proof {
            assert(first_unresolved(store0, mods_v, 0) is None);
        }
        // cycle-detecting topological peel over the in-bundle dependency graph
        let mut remaining: Vec<usize> = Vec::new();
        let mut t: usize = 0;
        proof {
            assert(rem_view(remaining@) =~= range_seq(0));
        }
        while t < n
            invariant
                t <= n,
                remaining@.len() == t,
                rem_view(remaining@) == range_seq(t as int),
                forall|x: int| 0 <= x < remaining@.len() ==> remaining@[x] < n,
            decreases n - t,
        {
            let ghost r0 = remaining@;
            remaining.push(t);
            proof {
                lemma_rem_view_push(r0, t);
                assert(rem_view(remaining@) =~= range_seq(t + 1));
            }
            t += 1;
        }
        while remaining.len() > 0
            invariant
                n == mods@.len(),
                bundle == blob_views(modules@),
                bundle.len() == n,
                store0 == old(self).store@,
                *gas_status == *old(gas_status),
                mods_v == mods_of(bundle),
                mods_v.len() == n,
                vms_view(mods@) == mods_v,
                self.wf(),
                self.store@ == store0,
                first_malformed(bundle, 0) is None,
                first_addr_bad(mods_v, sender, 0) is None,
                first_dup(mods_v, 0) is None,
                first_update_violation(store0, mods_v, option, 0) is None,
                first_unresolved(store0, mods_v, 0) is None,
                forall|x: int| 0 <= x < remaining@.len() ==> remaining@[x] < n,
                peel(mods_v, rem_view(remaining@)) == peel(mods_v, range_seq(n as int)),
            decreases remaining@.len(),
        {
            let ghost rem = rem_view(remaining@);
            match find_first_removable(&mods, &remaining) {
                Some(k) => {
                    proof {
                        lemma_rem_view_remove(remaining@, k as int);
                    }
                    remaining.remove(k);
                },
                None => {
                    proof {
                        assert(peel(mods_v, rem) == Some(rem[0]));
                    }
                    let stuck = remaining[0];
                    return Err(PublishError::BundleVerificationFailed { index: stuck });
                },
            }
        }
        proof {
            assert(rem_view(remaining@) =~= Seq::<int>::empty());
            assert(peel(mods_v, range_seq(n as int)) is None);
            assert(bundle_verdict(store0, bundle, sender, option) is Accepted);
        }
        Ok(mods)
    }

    /// Publish a bundle: validate it in full, and only then commit every blob
    /// to the store, in bundle order, and invalidate the loader cache. On any
    /// rejection the store is untouched: no partial commit is ever observable.
    pub fn publish_module_bundle_with_option(
        &mut self,
        modules: Vec<Vec<u8>>,
        sender: u128,
        gas_status: &mut GasStatus,
        option: PublishModuleBundleOption,
    ) -> (r: Result<(), PublishError>)
        requires
            old(self).wf(),
        ensures
            final(self).wf(),
            *final(gas_status) == *old(gas_status),
            ({
                let bundle = blob_views(modules@);
                let v = bundle_verdict(old(self).store@, bundle, sender, option);
                match r {
                    Ok(u) => v is Accepted && final(self).store@ == commit_map(
                        old(self).store@,
                        bundle,
                        0,
                    ) && final(self).cache@ == Map::<IdView, ModuleView>::empty(),
                    Err(e) => error_matches(e, v, old(self).store@, bundle) && final(self).store@
                        == old(self).store@,
                }
            }),
    {
        let ghost bundle = blob_views(modules@);
        let ghost store0 = self.store@;
        let mods = match self.verify_module_bundle(&modules, sender, gas_status, option) {
            Ok(ms) => ms,
            Err(e) => {
                return Err(e);
            },
        };
        self.cache.clear();
        let n = modules.len();
        let mut i: usize = 0;
        while i < n
            invariant
                i <= n,
                n == modules@.len(),
                n == mods@.len(),
                bundle == blob_views(modules@),
                bundle.len() == n,
                store0 == old(self).store@,
                *gas_status == *old(gas_status),
                vms_view(mods@) == mods_of(bundle),
                bundle_verdict(store0, bundle, sender, option) is Accepted,
                self.cache@ == Map::<IdView, ModuleView>::empty(),
                commit_map(store0, bundle, 0) == commit_map(self.store@, bundle, i as int),
            decreases n - i,
        {
            proof {
                assert(vms_view(mods@)[i as int] == mods@[i as int]@);
                assert(bundle[i as int] == modules@[i as int]@);
                assert(mods@[i as int]@.id() == dmod(bundle[i as int]).id());
            }
            let id = mods[i].self_id();
            let blob = dup_bytes(&modules[i]);
            self.store.put(id, blob);
            i += 1;
        }
        Ok(())
    }

    /// Load a script blob, recover its declared parameter list, and verify
    /// the supplied senders and raw arguments against it.
    pub fn verify_script_args(
        &self,
        script: Vec<u8>,
        args: Vec<Vec<u8>>,
        senders: Vec<u128>,
    ) -> (r: Result<Vec<Value>, VerifyError>)
        ensures
            ({
                match sp_script_params(script@) {
                    None => r matches Err(e) && e == VerifyError::InvalidScript,
                    Some(ps) => match args_verdict(ps, senders@, arg_views(args@)) {
                        ArgsVerdict::Accepted(vs) => r matches Ok(out) && vals_view(out@) == vs,
                        ArgsVerdict::Rejected(e) => r matches Err(e2) && e2 == e,
                    },
                }
            }),
    {
        match decode_script_params(&script) {
            None => Err(VerifyError::InvalidScript),
            Some(params) => verify_arguments(&params, &senders, &args),
        }
    }

    /// Load a published module, resolve the named public function, and verify
    /// the supplied senders and raw arguments against its parameters.
    pub fn verify_script_function_args(
        &mut self,
        module: &ModuleIdentity,
        function_name: &Vec<u8>,
        args: Vec<Vec<u8>>,
        senders: Vec<u128>,
    ) -> (r: Result<Vec<Value>, VerifyError>)
        requires
            old(self).wf(),
        ensures
            final(self).wf(),
            final(self).store@ == old(self).store@,
            ({
                let st = old(self).store@;
                if !st.contains_key(module@) {
                    r matches Err(e) && e == VerifyError::ModuleNotFound
                } else if sp_module(st[module@]) is None {
                    r matches Err(e) && e == VerifyError::ModuleInvalid
                } else {
                    match find_fun_from(dmod(st[module@]).functions, function_name@, 0) {
                        None => r matches Err(e) && e == VerifyError::FunctionNotFound,
                        Some(f) => if !(f.visibility is Public) {
                            r matches Err(e) && e == VerifyError::FunctionNotFound
                        } else {
                            match args_verdict(f.params, senders@, arg_views(args@)) {
                                ArgsVerdict::Accepted(vs) => r matches Ok(out) && vals_view(out@)
                                    == vs,
                                ArgsVerdict::Rejected(e) => r matches Err(e2) && e2 == e,
                            }
                        },
                    }
                }
            }),
    {
        let m = match self.load_module(module) {
            Ok(m) => m,
            Err(e) => {
                match e {
                    LoadError::NotFound => {
                        return Err(VerifyError::ModuleNotFound);
                    },
                    LoadError::Invalid => {
                        return Err(VerifyError::ModuleInvalid);
                    },
                }
            },
        };
        let ghost fv = m@.functions;
        let mut i: usize = 0;
        let n = m.functions.len();
        while i < n
            invariant
                i <= n,
                n == m.functions@.len(),
                fv == funs_view(m.functions@),
                self.wf(),
                self.store@ == old(self).store@,
                old(self).store@.contains_key(module@),
                sp_module(old(self).store@[module@]) == Some(m@),
                fv == dmod(old(self).store@[module@]).functions,
                find_fun_from(fv, function_name@, 0) == find_fun_from(fv, function_name@, i as int),
            decreases n - i,
        {
            proof {
                assert(fv[i as int] == m.functions@[i as int]@);
            }
            if bytes_eq(&m.functions[i].name, function_name) {
                if m.functions[i].visibility == Visibility::Public {
                    let params = dup_types(&m.functions[i].params);
                    return verify_arguments(&params, &senders, &args);
                } else {
                    return Err(VerifyError::FunctionNotFound);
                }
            }
            i += 1;
        }
        proof {
            assert(find_fun_from(fv, function_name@, 0) is None);
        }
        Err(VerifyError::FunctionNotFound)
    }
}

} // verus!
