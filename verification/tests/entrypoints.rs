use move_vm_core::compat::{check, CompatReasonKind};
use move_vm_core::errors::VerifyError;
use move_vm_core::gas::GasStatus;
use move_vm_core::module::{
    normalize, FunctionDef, ModuleIdentity, NormalizedModule, StructDef, VerifiedModule,
};
use move_vm_core::options::Options;
use move_vm_core::session::SessionAdapter;
use move_vm_core::store::DataStore;
use move_vm_core::types::{TypeTag, Value, Visibility};
use move_vm_core::PublishModuleBundleOption;

fn fun(name: &str, vis: Visibility, params: &[TypeTag]) -> FunctionDef {
    FunctionDef {
        name: name.as_bytes().to_vec(),
        visibility: vis,
        params: params.to_vec(),
        returns: Vec::new(),
    }
}

fn norm(funs: Vec<FunctionDef>) -> NormalizedModule {
    NormalizedModule { structs: Vec::new(), functions: funs }
}

#[test]
fn dropping_public_function_breaks_compat_naming_it() {
    let old = norm(vec![fun("f", Visibility::Public, &[TypeTag::U64])]);
    let new = norm(vec![]);
    let v = check(&old, &new);
    assert!(!v.fully_compatible);
    assert_eq!(v.reasons.len(), 1);
    assert_eq!(v.reasons[0].name, b"f".to_vec());
    assert_eq!(v.reasons[0].kind, CompatReasonKind::FunctionMissing);
}

#[test]
fn adding_public_function_keeps_compat() {
    let old = norm(vec![fun("f", Visibility::Public, &[TypeTag::U64])]);
    let new = norm(vec![
        fun("f", Visibility::Public, &[TypeTag::U64]),
        fun("g", Visibility::Public, &[]),
    ]);
    let v = check(&old, &new);
    assert!(v.fully_compatible);
    assert!(v.reasons.is_empty());
}

#[test]
fn resignaturing_public_function_breaks_compat() {
    let old = norm(vec![fun("f", Visibility::Public, &[TypeTag::U64])]);
    let new = norm(vec![fun("f", Visibility::Public, &[TypeTag::Bool])]);
    let v = check(&old, &new);
    assert!(!v.fully_compatible);
    assert_eq!(v.reasons[0].kind, CompatReasonKind::FunctionSignatureChanged);
    assert_eq!(v.reasons[0].name, b"f".to_vec());
}

#[test]
fn struct_layout_change_breaks_compat() {
    let s_old = StructDef {
        name: b"S".to_vec(),
        abilities: 3,
        fields: vec![move_vm_core::module::FieldDef { name: b"x".to_vec(), ty: TypeTag::U64 }],
    };
    let mut s_new = s_old.clone();
    s_new.fields[0].ty = TypeTag::Bool;
    let old = NormalizedModule { structs: vec![s_old], functions: Vec::new() };
    let new = NormalizedModule { structs: vec![s_new], functions: Vec::new() };
    let v = check(&old, &new);
    assert!(!v.fully_compatible);
    assert_eq!(v.reasons[0].kind, CompatReasonKind::StructLayoutChanged);
    assert_eq!(v.reasons[0].name, b"S".to_vec());
}

#[test]
fn private_functions_are_unconstrained() {
    let m_old = VerifiedModule {
        address: 1,
        name: b"m".to_vec(),
        deps: Vec::new(),
        structs: Vec::new(),
        functions: vec![fun("h", Visibility::Private, &[TypeTag::U64])],
    };
    let m_new = VerifiedModule { functions: Vec::new(), ..m_old.clone() };
    let v = check(&normalize(&m_old), &normalize(&m_new));
    assert!(v.fully_compatible);
}

fn script(params: &[u8]) -> Vec<u8> {
    let mut v = vec![params.len() as u8];
    v.extend_from_slice(params);
    v
}

#[test]
fn script_args_signer_then_value_accepted() {
    let session = SessionAdapter::new(DataStore::new());
    let args = vec![7u64.to_le_bytes().to_vec()];
    let r = session.verify_script_args(script(&[5, 2]), args, vec![0xA]).unwrap();
    assert_eq!(r, vec![Value::Signer(0xA), Value::U64(7)]);
}

#[test]
fn script_args_signer_count_mismatch() {
    let session = SessionAdapter::new(DataStore::new());
    let r = session.verify_script_args(script(&[5, 2]), vec![7u64.to_le_bytes().to_vec()], vec![]);
    assert_eq!(r, Err(VerifyError::SignerCountMismatch { expected: 1, actual: 0 }));
}

#[test]
fn script_args_signer_after_value_rejected() {
    let session = SessionAdapter::new(DataStore::new());
    let r = session.verify_script_args(script(&[2, 5]), vec![], vec![0xA]);
    assert_eq!(r, Err(VerifyError::SignerParameterOrderError { pos: 1 }));
}

#[test]
fn script_args_bad_argument_positioned() {
    let session = SessionAdapter::new(DataStore::new());
    let r = session.verify_script_args(script(&[5, 2]), vec![vec![1, 2]], vec![0xA]);
    assert_eq!(r, Err(VerifyError::ArgumentDeserializationError { pos: 1 }));
}

#[test]
fn script_args_invalid_script() {
    let session = SessionAdapter::new(DataStore::new());
    let r = session.verify_script_args(vec![9], vec![], vec![]);
    assert_eq!(r, Err(VerifyError::InvalidScript));
}

#[test]
fn script_args_value_kinds_decode() {
    let session = SessionAdapter::new(DataStore::new());
    let args = vec![
        vec![1],
        vec![0x2A],
        0x1_0000_0000u128.to_le_bytes().to_vec(),
        vec![3, 0, 0, 0, 7, 8, 9],
    ];
    let r = session.verify_script_args(script(&[0, 1, 3, 6]), args, vec![]).unwrap();
    assert_eq!(
        r,
        vec![
            Value::Bool(true),
            Value::U8(0x2A),
            Value::U128(0x1_0000_0000),
            Value::Bytes(vec![7, 8, 9]),
        ],
    );
}

fn publish_module_with_f(session: &mut SessionAdapter) -> ModuleIdentity {
    let mut gas = GasStatus::new(1000);
    let mut b = Vec::new();
    b.extend_from_slice(&0xAu128.to_le_bytes());
    b.push(1);
    b.extend_from_slice(b"m");
    b.push(0);
    b.push(0);
    b.push(2);
    // public f(u64)
    b.push(1);
    b.extend_from_slice(b"f");
    b.push(0);
    b.push(1);
    b.push(2);
    b.push(0);
    // private p()
    b.push(1);
    b.extend_from_slice(b"p");
    b.push(2);
    b.push(0);
    b.push(0);
    session
        .publish_module_bundle_with_option(
            vec![b],
            0xA,
            &mut gas,
            PublishModuleBundleOption::default(),
        )
        .unwrap();
    ModuleIdentity { address: 0xA, name: b"m".to_vec() }
}

#[test]
fn script_function_args_resolved_and_checked() {
    let mut session = SessionAdapter::new(DataStore::new());
    let id = publish_module_with_f(&mut session);
    let r = session
        .verify_script_function_args(&id, &b"f".to_vec(), vec![5u64.to_le_bytes().to_vec()], vec![])
        .unwrap();
    assert_eq!(r, vec![Value::U64(5)]);
}

#[test]
fn script_function_args_missing_function() {
    let mut session = SessionAdapter::new(DataStore::new());
    let id = publish_module_with_f(&mut session);
    let r = session.verify_script_function_args(&id, &b"g".to_vec(), vec![], vec![]);
    assert_eq!(r, Err(VerifyError::FunctionNotFound));
}

#[test]
fn script_function_args_private_function_not_callable() {
    let mut session = SessionAdapter::new(DataStore::new());
    let id = publish_module_with_f(&mut session);
    let r = session.verify_script_function_args(&id, &b"p".to_vec(), vec![], vec![]);
    assert_eq!(r, Err(VerifyError::FunctionNotFound));
}

#[test]
fn script_function_args_missing_module() {
    let mut session = SessionAdapter::new(DataStore::new());
    let id = ModuleIdentity { address: 0xB, name: b"nope".to_vec() };
    let r = session.verify_script_function_args(&id, &b"f".to_vec(), vec![], vec![]);
    assert_eq!(r, Err(VerifyError::ModuleNotFound));
}

#[test]
fn options_defaults_and_version() {
    let o = Options::default();
    assert_eq!(o.output, "output.yul");
    assert_eq!(o.solc_exe, "solc");
    assert!(!o.dump_bytecode);
    assert!(o.dependencies.is_empty());
    assert!(o.sources.is_empty());
    assert_eq!(o.version(), "0.0");
}

#[test]
fn store_put_get_roundtrip() {
    let mut store = DataStore::new();
    let id = ModuleIdentity { address: 5, name: b"x".to_vec() };
    assert!(store.get_module(&id).is_none());
    store.put(
        ModuleIdentity { address: 5, name: b"x".to_vec() },
        vec![1, 2, 3],
    );
    assert!(store.exists_module(&id));
    assert_eq!(store.get_module(&id), Some(vec![1, 2, 3]));
    store.put(ModuleIdentity { address: 5, name: b"x".to_vec() }, vec![4]);
    assert_eq!(store.get_module(&id), Some(vec![4]));
}
