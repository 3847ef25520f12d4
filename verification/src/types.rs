use vstd::prelude::*;

verus! {

/// The signature-level type alphabet of module interfaces: the types that may
/// appear in struct fields and entry-point parameters.
#[derive(Copy, Clone, PartialEq, Eq, Structural, Debug)]
pub enum TypeTag {
    Bool,
    U8,
    U64,
    U128,
    Address,
    Signer,
    Bytes,
}

/// Visibility of a declared function. Only public functions constrain
/// compatibility and only public functions are entry points.
#[derive(Copy, Clone, PartialEq, Eq, Structural, Debug)]
pub enum Visibility {
    Public,
    Friend,
    Private,
}

/// A runtime value, as handed to or produced by a native operation or by
/// entry-point argument deserialization.
#[derive(Debug, Clone, PartialEq, Eq)]
pub enum Value {
    Bool(bool),
    U8(u8),
    U64(u64),
    U128(u128),
    Address(u128),
    Signer(u128),
    Bytes(Vec<u8>),
}

#[verifier::ext_equal]
pub ghost enum ValueView {
    Bool(bool),
    U8(u8),
    U64(u64),
    U128(u128),
    Address(u128),
    Signer(u128),
    Bytes(Seq<u8>),
}

impl View for Value {
    type V = ValueView;

    open spec fn view(&self) -> ValueView {
        match self {
            Value::Bool(b) => ValueView::Bool(*b),
            Value::U8(x) => ValueView::U8(*x),
            Value::U64(x) => ValueView::U64(*x),
            Value::U128(x) => ValueView::U128(*x),
            Value::Address(a) => ValueView::Address(*a),
            Value::Signer(a) => ValueView::Signer(*a),
            Value::Bytes(v) => ValueView::Bytes(v@),
        }
    }
}

/// Whether a value inhabits a declared type.
pub open spec fn value_has_type(v: ValueView, t: TypeTag) -> bool {
    match t {
        TypeTag::Bool => v is Bool,
        TypeTag::U8 => v is U8,
        TypeTag::U64 => v is U64,
        TypeTag::U128 => v is U128,
        TypeTag::Address => v is Address,
        TypeTag::Signer => v is Signer,
        TypeTag::Bytes => v is Bytes,
    }
}

/// Whether a type has a canonical serialized layout. Signers are capability
/// values and are inherently non-serializable.
pub open spec fn has_layout(t: TypeTag) -> bool {
    !(t is Signer)
}

} // verus!
