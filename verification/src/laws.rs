use vstd::prelude::*;
use crate::compat::{compat_spec, fun_kept, struct_kept};
use crate::gas::{sp_cost, SHA2_256_BASE_COST};
use crate::module::{IdView, NormView};
use crate::natives::sha2_256_of;
use crate::session::{
    bundle_verdict, cand_unresolved, commit_map, decode_ok, dep_resolved, dmod, dup_before,
    first_addr_bad, first_dup, first_malformed, first_unresolved, first_update_violation, mods_of,
    update_violation, BundleVerdict,
};
use crate::decode::sp_module;
use crate::PublishModuleBundleOption;

verus! {

proof fn lemma_scan_malformed_none(bundle: Seq<Seq<u8>>, i: int)
    requires
        0 <= i,
        forall|j: int| i <= j < bundle.len() ==> decode_ok(bundle[j]),
    ensures
        first_malformed(bundle, i) is None,
    decreases bundle.len() - i,
{
    if i < bundle.len() {
        lemma_scan_malformed_none(bundle, i + 1);
    }
}

proof fn lemma_scan_addr_none(mods: Seq<crate::module::ModuleView>, sender: u128, i: int)
    requires
        0 <= i,
        forall|j: int| i <= j < mods.len() ==> mods[j].address == sender,
    ensures
        first_addr_bad(mods, sender, i) is None,
    decreases mods.len() - i,
{
    if i < mods.len() {
        lemma_scan_addr_none(mods, sender, i + 1);
    }
}

proof fn lemma_scan_addr_some(mods: Seq<crate::module::ModuleView>, sender: u128, i: int)
    requires
        0 <= i,
        exists|j: int| i <= j < mods.len() && mods[j].address != sender,
    ensures
        first_addr_bad(mods, sender, i) matches Some(x) && i <= x < mods.len() && mods[x].address
            != sender,
    decreases mods.len() - i,
{
    if mods[i].address != sender {
    } else {
        assert(exists|j: int| i + 1 <= j < mods.len() && mods[j].address != sender) by {
            let j = choose|j: int| i <= j < mods.len() && mods[j].address != sender;
            assert(i + 1 <= j < mods.len() && mods[j].address != sender);
        }
        lemma_scan_addr_some(mods, sender, i + 1);
    }
}

proof fn lemma_scan_dup_some(mods: Seq<crate::module::ModuleView>, i: int)
    requires
        0 <= i,
        exists|j: int| i <= j < mods.len() && dup_before(mods, j),
    ensures
        first_dup(mods, i) matches Some(x) && i <= x < mods.len() && dup_before(mods, x),
    decreases mods.len() - i,
{
    if dup_before(mods, i) {
    } else {
        assert(exists|j: int| i + 1 <= j < mods.len() && dup_before(mods, j)) by {
            let j = choose|j: int| i <= j < mods.len() && dup_before(mods, j);
            assert(i + 1 <= j < mods.len() && dup_before(mods, j));
        }
        lemma_scan_dup_some(mods, i + 1);
    }
}

proof fn lemma_first_dup_none(mods: Seq<crate::module::ModuleView>, i: int)
    requires
        0 <= i,
        first_dup(mods, i) is None,
    ensures
        forall|j: int| i <= j < mods.len() ==> !dup_before(mods, j),
    decreases mods.len() - i,
{
    if i < mods.len() {
        lemma_first_dup_none(mods, i + 1);
    }
}

proof fn lemma_scan_update_none(
    store: Map<IdView, Seq<u8>>,
    mods: Seq<crate::module::ModuleView>,
    opt: PublishModuleBundleOption,
    i: int,
)
    requires
        0 <= i,
        forall|j: int| i <= j < mods.len() ==> update_violation(store, mods[j], opt) is None,
    ensures
        first_update_violation(store, mods, opt, i) is None,
    decreases mods.len() - i,
{
    if i < mods.len() {
        lemma_scan_update_none(store, mods, opt, i + 1);
    }
}

proof fn lemma_scan_unresolved_none(
    store: Map<IdView, Seq<u8>>,
    mods: Seq<crate::module::ModuleView>,
    i: int,
)
    requires
        0 <= i,
        forall|j: int| i <= j < mods.len() ==> !cand_unresolved(store, mods, j),
    ensures
        first_unresolved(store, mods, i) is None,
    decreases mods.len() - i,
{
    if i < mods.len() {
        lemma_scan_unresolved_none(store, mods, i + 1);
    }
}

proof fn lemma_first_unresolved_none(
    store: Map<IdView, Seq<u8>>,
    mods: Seq<crate::module::ModuleView>,
    i: int,
)
    requires
        0 <= i,
        first_unresolved(store, mods, i) is None,
    ensures
        forall|j: int| i <= j < mods.len() ==> !cand_unresolved(store, mods, j),
    decreases mods.len() - i,
{
    if i < mods.len() {
        lemma_first_unresolved_none(store, mods, i + 1);
    }
}

/// Committing never removes a key.
proof fn lemma_commit_keeps(store: Map<IdView, Seq<u8>>, bundle: Seq<Seq<u8>>, i: int, k: IdView)
    requires
        store.contains_key(k),
    ensures
        commit_map(store, bundle, i).contains_key(k),
    decreases bundle.len() - i,
{
    if 0 <= i < bundle.len() {
        lemma_commit_keeps(store.insert(dmod(bundle[i]).id(), bundle[i]), bundle, i + 1, k);
    }
}

/// A key no remaining candidate owns is untouched by the commit.
proof fn lemma_commit_untouched(
    store: Map<IdView, Seq<u8>>,
    bundle: Seq<Seq<u8>>,
    i: int,
    k: IdView,
)
    requires
        forall|l: int| i <= l < bundle.len() ==> dmod(bundle[l]).id() != k,
    ensures
        commit_map(store, bundle, i).contains_key(k) == store.contains_key(k),
        store.contains_key(k) ==> commit_map(store, bundle, i)[k] == store[k],
    decreases bundle.len() - i,
{
    if 0 <= i < bundle.len() {
        lemma_commit_untouched(store.insert(dmod(bundle[i]).id(), bundle[i]), bundle, i + 1, k);
    }
}

/// After the commit, a candidate whose identity no later candidate reuses is
/// stored with exactly its submitted bytes.
proof fn lemma_commit_get(store: Map<IdView, Seq<u8>>, bundle: Seq<Seq<u8>>, i: int, j: int)
    requires
        0 <= i <= j < bundle.len(),
        forall|l: int| j < l < bundle.len() ==> dmod(bundle[l]).id() != dmod(bundle[j]).id(),
    ensures
        commit_map(store, bundle, i).contains_key(dmod(bundle[j]).id()),
        commit_map(store, bundle, i)[dmod(bundle[j]).id()] == bundle[j],
    decreases j - i,
{
    let s1 = store.insert(dmod(bundle[i]).id(), bundle[i]);
    if i == j {
        lemma_commit_untouched(s1, bundle, i + 1, dmod(bundle[j]).id());
    } else {
        lemma_commit_get(s1, bundle, i + 1, j);
    }
}

/// Re-committing bytes a store already holds changes nothing.
proof fn lemma_commit_noop(store: Map<IdView, Seq<u8>>, bundle: Seq<Seq<u8>>, i: int)
    requires
        forall|j: int|
            i <= j < bundle.len() ==> store.contains_key(#[trigger] dmod(bundle[j]).id())
                && store[dmod(bundle[j]).id()] == bundle[j],
    ensures
        commit_map(store, bundle, i) == store,
    decreases bundle.len() - i,
{
    if 0 <= i < bundle.len() {
        let s1 = store.insert(dmod(bundle[i]).id(), bundle[i]);
        assert(s1 =~= store);
        lemma_commit_noop(s1, bundle, i + 1);
    }
}

/// If any candidate of a well-formed bundle is owned by another address than
/// the sender, publication is rejected with an address mismatch naming such a
/// candidate; the pipeline's contract then leaves the store unchanged.
pub proof fn lemma_address_mismatch_rejected(
    store: Map<IdView, Seq<u8>>,
    bundle: Seq<Seq<u8>>,
    sender: u128,
    opt: PublishModuleBundleOption,
)
    requires
        forall|i: int| 0 <= i < bundle.len() ==> decode_ok(bundle[i]),
        exists|i: int| 0 <= i < bundle.len() && mods_of(bundle)[i].address != sender,
    ensures
        bundle_verdict(store, bundle, sender, opt) matches BundleVerdict::Address { index }
            && 0 <= index < bundle.len() && mods_of(bundle)[index].address != sender,
{
    lemma_scan_malformed_none(bundle, 0);
    assert(mods_of(bundle).len() == bundle.len());
    lemma_scan_addr_some(mods_of(bundle), sender, 0);
}

/// If two candidates of a well-formed, sender-owned bundle share one module
/// identity, publication is rejected as a duplicate.
pub proof fn lemma_duplicate_rejected(
    store: Map<IdView, Seq<u8>>,
    bundle: Seq<Seq<u8>>,
    sender: u128,
    opt: PublishModuleBundleOption,
)
    requires
        forall|i: int| 0 <= i < bundle.len() ==> decode_ok(bundle[i]),
        forall|i: int| 0 <= i < bundle.len() ==> mods_of(bundle)[i].address == sender,
        exists|i: int, j: int|
            0 <= i < j < bundle.len() && mods_of(bundle)[i].id() == mods_of(bundle)[j].id(),
    ensures
        bundle_verdict(store, bundle, sender, opt) is Duplicate,
{
    lemma_scan_malformed_none(bundle, 0);
    lemma_scan_addr_none(mods_of(bundle), sender, 0);
    let mods = mods_of(bundle);
    assert(exists|j: int| 0 <= j < mods.len() && dup_before(mods, j)) by {
        let (i, j) = choose|i: int, j: int|
            0 <= i < j < bundle.len() && mods_of(bundle)[i].id() == mods_of(bundle)[j].id();
        assert(dup_before(mods, j));
    }
    lemma_scan_dup_some(mods, 0);
}

/// Idempotence of forced republication: a bundle the pipeline accepted, once
/// committed, is accepted again under force-publish against the new store,
/// and committing it again leaves the store's bytes exactly as they were.
pub proof fn lemma_republish_force_idempotent(
    store: Map<IdView, Seq<u8>>,
    bundle: Seq<Seq<u8>>,
    sender: u128,
    opt: PublishModuleBundleOption,
)
    requires
        bundle_verdict(store, bundle, sender, opt) is Accepted,
    ensures
        ({
            let store1 = commit_map(store, bundle, 0);
            let force = PublishModuleBundleOption { force_publish: true, only_new_module: false };
            bundle_verdict(store1, bundle, sender, force) is Accepted && commit_map(
                store1,
                bundle,
                0,
            ) == store1
        }),
{
    let mods = mods_of(bundle);
    let store1 = commit_map(store, bundle, 0);
    let force = PublishModuleBundleOption { force_publish: true, only_new_module: false };
    lemma_first_dup_none(mods, 0);
    // identities are pairwise distinct, so each candidate's bytes survive
    assert forall|j: int| 0 <= j < bundle.len() implies store1.contains_key(
        #[trigger] dmod(bundle[j]).id(),
    ) && store1[dmod(bundle[j]).id()] == bundle[j] by {
        assert forall|l: int| j < l < bundle.len() implies dmod(bundle[l]).id() != dmod(
            bundle[j],
        ).id() by {
            assert(mods[l] == dmod(bundle[l]));
            assert(mods[j] == dmod(bundle[j]));
            if mods[l].id() == mods[j].id() {
                assert(dup_before(mods, l));
            }
        }
        lemma_commit_get(store, bundle, 0, j);
    }
    // every gate passes again
    assert forall|j: int| 0 <= j < bundle.len() implies #[trigger] decode_ok(bundle[j]) by {
        if !decode_ok(bundle[j]) {
            assert(first_malformed(bundle, j) is Some);
            lemma_scan_malformed_some_implies(bundle, 0, j);
        }
    }
    lemma_scan_malformed_none(bundle, 0);
    assert forall|j: int| 0 <= j < mods.len() implies update_violation(
        store1,
        mods[j],
        force,
    ) is None by {
        assert(mods[j] == dmod(bundle[j]));
        assert(store1[mods[j].id()] == bundle[j]);
        assert(decode_ok(store1[mods[j].id()]));
    }
    lemma_scan_update_none(store1, mods, force, 0);
    lemma_first_unresolved_none(store, mods, 0);
    assert forall|j: int| 0 <= j < mods.len() implies !cand_unresolved(store1, mods, j) by {
        assert(!cand_unresolved(store, mods, j));
        assert forall|d: int| 0 <= d < mods[j].deps.len() implies dep_resolved(
            store1,
            mods,
            #[trigger] mods[j].deps[d],
        ) by {
            assert(dep_resolved(store, mods, mods[j].deps[d]));
            if store.contains_key(mods[j].deps[d]) {
                lemma_commit_keeps(store, bundle, 0, mods[j].deps[d]);
            }
        }
    }
    lemma_scan_unresolved_none(store1, mods, 0);
    lemma_commit_noop(store1, bundle, 0);
}

proof fn lemma_scan_malformed_some_implies(bundle: Seq<Seq<u8>>, i: int, j: int)
    requires
        0 <= i <= j < bundle.len(),
        !decode_ok(bundle[j]),
    ensures
        first_malformed(bundle, i) is Some,
    decreases j - i,
{
    if i < j && decode_ok(bundle[i]) {
        lemma_scan_malformed_some_implies(bundle, i + 1, j);
    }
}

/// Dropping a public function of the old module makes the update incompatible;
/// the checker's contract additionally yields a diagnostic naming it.
pub proof fn lemma_dropped_function_incompatible(old: NormView, new: NormView, i: int)
    requires
        0 <= i < old.functions.len(),
        !fun_kept(old.functions[i], new.functions),
    ensures
        !compat_spec(old, new),
{
}

/// Extending a module with new public functions, keeping every old struct and
/// function in place, stays fully compatible.
pub proof fn lemma_added_function_compatible(old: NormView, new: NormView)
    requires
        new.structs == old.structs,
        new.functions.len() >= old.functions.len(),
        forall|i: int| 0 <= i < old.functions.len() ==> new.functions[i] == old.functions[i],
    ensures
        compat_spec(old, new),
{
    assert forall|i: int| 0 <= i < old.structs.len() implies struct_kept(
        old.structs[i],
        new.structs,
    ) by {
        assert(new.structs[i] == old.structs[i]);
    }
    assert forall|i: int| 0 <= i < old.functions.len() implies fun_kept(
        old.functions[i],
        new.functions,
    ) by {
        assert(new.functions[i] == old.functions[i]);
    }
}

/// Cache correctness across a commit: after an accepted bundle is committed,
/// each candidate's identity maps to its new bytes, whose decoding is the new
/// module — so a load after invalidation, which by `load_module`'s contract
/// returns the decoding of the store's bytes, yields the new module and never
/// the stale one.
pub proof fn lemma_commit_then_load_is_fresh(
    store: Map<IdView, Seq<u8>>,
    bundle: Seq<Seq<u8>>,
    sender: u128,
    opt: PublishModuleBundleOption,
    i: int,
)
    requires
        bundle_verdict(store, bundle, sender, opt) is Accepted,
        0 <= i < bundle.len(),
    ensures
        ({
            let store1 = commit_map(store, bundle, 0);
            let id = mods_of(bundle)[i].id();
            store1.contains_key(id) && store1[id] == bundle[i] && sp_module(store1[id]) == Some(
                mods_of(bundle)[i],
            )
        }),
{
    let mods = mods_of(bundle);
    lemma_first_dup_none(mods, 0);
    assert forall|l: int| i < l < bundle.len() implies dmod(bundle[l]).id() != dmod(
        bundle[i],
    ).id() by {
        assert(mods[l] == dmod(bundle[l]));
        assert(mods[i] == dmod(bundle[i]));
        if mods[l].id() == mods[i].id() {
            assert(dup_before(mods, l));
        }
    }
    lemma_commit_get(store, bundle, 0, i);
    if !decode_ok(bundle[i]) {
        lemma_scan_malformed_some_implies(bundle, 0, i);
    }
    assert(mods[i] == dmod(bundle[i]));
}

/// Gas determinism of the digest built-in: cost and output are functions of
/// the input bytes alone, so equal inputs give equal cost and equal digests.
pub proof fn lemma_digest_deterministic(arg1: Seq<u8>, arg2: Seq<u8>)
    requires
        arg1 == arg2,
    ensures
        sp_cost(SHA2_256_BASE_COST, arg1.len()) == sp_cost(SHA2_256_BASE_COST, arg2.len()),
        sha2_256_of(arg1) == sha2_256_of(arg2),
{
}

} // verus!
