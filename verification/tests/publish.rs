use move_vm_core::errors::{LoadError, PublishError};
use move_vm_core::gas::GasStatus;
use move_vm_core::module::ModuleIdentity;
use move_vm_core::session::SessionAdapter;
use move_vm_core::store::DataStore;
use move_vm_core::types::Visibility;
use move_vm_core::PublishModuleBundleOption;

fn blob(
    addr: u128,
    name: &str,
    deps: &[(u128, &str)],
    funs: &[(&str, u8, &[u8], &[u8])],
) -> Vec<u8> {
    let mut v = Vec::new();
    v.extend_from_slice(&addr.to_le_bytes());
    v.push(name.len() as u8);
    v.extend_from_slice(name.as_bytes());
    v.push(deps.len() as u8);
    for (a, n) in deps {
        v.extend_from_slice(&a.to_le_bytes());
        v.push(n.len() as u8);
        v.extend_from_slice(n.as_bytes());
    }
    v.push(0);
    v.push(funs.len() as u8);
    for (n, vis, ps, rs) in funs {
        v.push(n.len() as u8);
        v.extend_from_slice(n.as_bytes());
        v.push(*vis);
        v.push(ps.len() as u8);
        v.extend_from_slice(ps);
        v.push(rs.len() as u8);
        v.extend_from_slice(rs);
    }
    v
}

fn id(addr: u128, name: &str) -> ModuleIdentity {
    ModuleIdentity { address: addr, name: name.as_bytes().to_vec() }
}

fn opts(force: bool, only_new: bool) -> PublishModuleBundleOption {
    PublishModuleBundleOption { force_publish: force, only_new_module: only_new }
}

#[test]
fn fresh_publish_succeeds() {
    let mut session = SessionAdapter::new(DataStore::new());
    let mut gas = GasStatus::new(1000);
    let b = blob(0xA, "moduleA", &[], &[]);
    let r = session.publish_module_bundle_with_option(vec![b], 0xA, &mut gas, opts(false, false));
    assert!(r.is_ok());
    assert!(session.store.exists_module(&id(0xA, "moduleA")));
    assert_eq!(gas.charged, 0);
}

#[test]
fn address_mismatch_rejected_store_unchanged() {
    let mut session = SessionAdapter::new(DataStore::new());
    let mut gas = GasStatus::new(1000);
    let b = blob(0xB, "moduleA", &[], &[]);
    let r = session.publish_module_bundle_with_option(vec![b], 0xA, &mut gas, opts(false, false));
    assert!(matches!(r, Err(PublishError::AddressMismatch { index: 0 })));
    assert!(!session.store.exists_module(&id(0xB, "moduleA")));
}

#[test]
fn duplicate_in_bundle_rejected() {
    let mut session = SessionAdapter::new(DataStore::new());
    let mut gas = GasStatus::new(1000);
    let b1 = blob(0xA, "m", &[], &[]);
    let b2 = blob(0xA, "m", &[], &[("f", 0, &[], &[])]);
    let r = session.publish_module_bundle_with_option(
        vec![b1, b2],
        0xA,
        &mut gas,
        opts(false, false),
    );
    assert!(matches!(r, Err(PublishError::DuplicateModuleInBundle { index: 1 })));
}

#[test]
fn malformed_module_rejected() {
    let mut session = SessionAdapter::new(DataStore::new());
    let mut gas = GasStatus::new(1000);
    let r = session.publish_module_bundle_with_option(
        vec![vec![1, 2, 3]],
        0xA,
        &mut gas,
        opts(false, false),
    );
    assert!(matches!(r, Err(PublishError::MalformedModule { index: 0 })));
}

#[test]
fn incompatible_update_rejected_naming_function() {
    let mut session = SessionAdapter::new(DataStore::new());
    let mut gas = GasStatus::new(1000);
    let old = blob(0xA, "moduleA", &[], &[("f", 0, &[2], &[])]);
    let new = blob(0xA, "moduleA", &[], &[("f", 0, &[0], &[])]);
    session
        .publish_module_bundle_with_option(vec![old], 0xA, &mut gas, opts(false, false))
        .unwrap();
    let r =
        session.publish_module_bundle_with_option(vec![new], 0xA, &mut gas, opts(false, false));
    match r {
        Err(PublishError::IncompatibleUpdate { index, reasons }) => {
            assert_eq!(index, 0);
            assert!(reasons.iter().any(|reason| reason.name == b"f".to_vec()));
        },
        other => panic!("expected an incompatible update, got {:?}", other),
    }
}

#[test]
fn forced_incompatible_update_commits_new_bytes() {
    let mut session = SessionAdapter::new(DataStore::new());
    let mut gas = GasStatus::new(1000);
    let old = blob(0xA, "moduleA", &[], &[("f", 0, &[2], &[])]);
    let new = blob(0xA, "moduleA", &[], &[("f", 0, &[0], &[])]);
    session
        .publish_module_bundle_with_option(vec![old], 0xA, &mut gas, opts(false, false))
        .unwrap();
    let r = session.publish_module_bundle_with_option(
        vec![new.clone()],
        0xA,
        &mut gas,
        opts(true, false),
    );
    assert!(r.is_ok());
    let stored = session.store.get_module(&id(0xA, "moduleA")).unwrap();
    assert_eq!(stored, new);
}

#[test]
fn republish_identical_with_force_is_idempotent() {
    let mut session = SessionAdapter::new(DataStore::new());
    let mut gas = GasStatus::new(1000);
    let b = blob(0xA, "moduleA", &[], &[("f", 0, &[2], &[3])]);
    session
        .publish_module_bundle_with_option(vec![b.clone()], 0xA, &mut gas, opts(false, false))
        .unwrap();
    let before = session.store.get_module(&id(0xA, "moduleA")).unwrap();
    let r = session.publish_module_bundle_with_option(
        vec![b.clone()],
        0xA,
        &mut gas,
        opts(true, false),
    );
    assert!(r.is_ok());
    let after = session.store.get_module(&id(0xA, "moduleA")).unwrap();
    assert_eq!(before, after);
    assert_eq!(after, b);
}

#[test]
fn only_new_module_policy_rejects_update() {
    let mut session = SessionAdapter::new(DataStore::new());
    let mut gas = GasStatus::new(1000);
    let b = blob(0xA, "m", &[], &[]);
    session
        .publish_module_bundle_with_option(vec![b.clone()], 0xA, &mut gas, opts(false, false))
        .unwrap();
    let r = session.publish_module_bundle_with_option(vec![b], 0xA, &mut gas, opts(false, true));
    assert!(matches!(r, Err(PublishError::OnlyNewModulesAllowed { index: 0 })));
}

#[test]
fn unresolved_dependency_rejected() {
    let mut session = SessionAdapter::new(DataStore::new());
    let mut gas = GasStatus::new(1000);
    let b = blob(0xA, "m", &[(0xB, "missing")], &[]);
    let r = session.publish_module_bundle_with_option(vec![b], 0xA, &mut gas, opts(false, false));
    assert!(matches!(r, Err(PublishError::BundleVerificationFailed { index: 0 })));
}

#[test]
fn cyclic_bundle_rejected() {
    let mut session = SessionAdapter::new(DataStore::new());
    let mut gas = GasStatus::new(1000);
    let a = blob(0xA, "a", &[(0xA, "b")], &[]);
    let b = blob(0xA, "b", &[(0xA, "a")], &[]);
    let r =
        session.publish_module_bundle_with_option(vec![a, b], 0xA, &mut gas, opts(false, false));
    assert!(matches!(r, Err(PublishError::BundleVerificationFailed { index: 0 })));
}

#[test]
fn self_dependency_rejected() {
    let mut session = SessionAdapter::new(DataStore::new());
    let mut gas = GasStatus::new(1000);
    let a = blob(0xA, "a", &[(0xA, "a")], &[]);
    let r = session.publish_module_bundle_with_option(vec![a], 0xA, &mut gas, opts(false, false));
    assert!(matches!(r, Err(PublishError::BundleVerificationFailed { index: 0 })));
}

#[test]
fn in_bundle_dependency_resolves() {
    let mut session = SessionAdapter::new(DataStore::new());
    let mut gas = GasStatus::new(1000);
    let dep = blob(0xA, "base", &[], &[]);
    let top = blob(0xA, "top", &[(0xA, "base")], &[]);
    let r = session.publish_module_bundle_with_option(
        vec![dep, top],
        0xA,
        &mut gas,
        opts(false, false),
    );
    assert!(r.is_ok());
}

#[test]
fn cache_reflects_new_bytes_after_invalidation() {
    let mut session = SessionAdapter::new(DataStore::new());
    let mut gas = GasStatus::new(1000);
    let v1 = blob(0xA, "moduleA", &[], &[("f", 0, &[2], &[])]);
    session
        .publish_module_bundle_with_option(vec![v1], 0xA, &mut gas, opts(false, false))
        .unwrap();
    let m1 = session.load_module(&id(0xA, "moduleA")).unwrap();
    assert_eq!(m1.functions.len(), 1);
    let v2 = blob(0xA, "moduleA", &[], &[("f", 0, &[2], &[]), ("g", 0, &[], &[])]);
    session
        .publish_module_bundle_with_option(vec![v2], 0xA, &mut gas, opts(false, false))
        .unwrap();
    session.empty_loader_cache();
    let m2 = session.load_module(&id(0xA, "moduleA")).unwrap();
    assert_eq!(m2.functions.len(), 2);
    assert_eq!(m2.functions[1].name, b"g".to_vec());
    assert_eq!(m2.functions[1].visibility, Visibility::Public);
}

#[test]
fn load_missing_module_not_found() {
    let mut session = SessionAdapter::new(DataStore::new());
    let r = session.load_module(&id(0xA, "none"));
    assert_eq!(r, Err(LoadError::NotFound));
}

#[test]
fn verify_bundle_returns_decoded_modules() {
    let mut session = SessionAdapter::new(DataStore::new());
    let mut gas = GasStatus::new(1000);
    let b = blob(0x7, "m", &[], &[("f", 2, &[], &[])]);
    let ms = session
        .verify_module_bundle(&vec![b], 0x7, &mut gas, opts(false, false))
        .unwrap();
    assert_eq!(ms.len(), 1);
    assert_eq!(ms[0].address, 0x7);
    assert_eq!(ms[0].name, b"m".to_vec());
    assert_eq!(ms[0].functions[0].visibility, Visibility::Private);
    assert!(!session.store.exists_module(&id(0x7, "m")));
}
