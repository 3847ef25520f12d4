use vstd::prelude::*;
use crate::types::{TypeTag, Visibility};
use crate::bytes_util::dup_bytes;

verus! {

/// The unique key of a module: the owning address and the module's name.
#[derive(Debug, Clone, PartialEq, Eq)]
pub struct ModuleIdentity {
    pub address: u128,
    pub name: Vec<u8>,
}

#[verifier::ext_equal]
pub ghost struct IdView {
    pub address: u128,
    pub name: Seq<u8>,
}

impl View for ModuleIdentity {
    type V = IdView;

    open spec fn view(&self) -> IdView {
        IdView { address: self.address, name: self.name@ }
    }
}

/// A named, typed field of a declared struct.
#[derive(Debug, Clone, PartialEq, Eq)]
pub struct FieldDef {
    pub name: Vec<u8>,
    pub ty: TypeTag,
}

#[verifier::ext_equal]
pub ghost struct FieldView {
    pub name: Seq<u8>,
    pub ty: TypeTag,
}

impl View for FieldDef {
    type V = FieldView;

    open spec fn view(&self) -> FieldView {
        FieldView { name: self.name@, ty: self.ty }
    }
}

/// A declared struct: name, ability markers, and its field layout in order.
#[derive(Debug, Clone, PartialEq, Eq)]
pub struct StructDef {
    pub name: Vec<u8>,
    pub abilities: u8,
    pub fields: Vec<FieldDef>,
}

#[verifier::ext_equal]
pub ghost struct StructView {
    pub name: Seq<u8>,
    pub abilities: u8,
    pub fields: Seq<FieldView>,
}

pub open spec fn fields_view(s: Seq<FieldDef>) -> Seq<FieldView> {
    s.map_values(|f: FieldDef| f@)
}

impl View for StructDef {
    type V = StructView;

    open spec fn view(&self) -> StructView {
        StructView { name: self.name@, abilities: self.abilities, fields: fields_view(self.fields@) }
    }
}

/// A declared function: name, visibility, and its signature.
#[derive(Debug, Clone, PartialEq, Eq)]
pub struct FunctionDef {
    pub name: Vec<u8>,
    pub visibility: Visibility,
    pub params: Vec<TypeTag>,
    pub returns: Vec<TypeTag>,
}

#[verifier::ext_equal]
pub ghost struct FunView {
    pub name: Seq<u8>,
    pub visibility: Visibility,
    pub params: Seq<TypeTag>,
    pub returns: Seq<TypeTag>,
}

impl View for FunctionDef {
    type V = FunView;

    open spec fn view(&self) -> FunView {
        FunView {
            name: self.name@,
            visibility: self.visibility,
            params: self.params@,
            returns: self.returns@,
        }
    }
}

pub open spec fn ids_view(s: Seq<ModuleIdentity>) -> Seq<IdView> {
    s.map_values(|d: ModuleIdentity| d@)
}

pub open spec fn structs_view(s: Seq<StructDef>) -> Seq<StructView> {
    s.map_values(|d: StructDef| d@)
}

pub open spec fn funs_view(s: Seq<FunctionDef>) -> Seq<FunView> {
    s.map_values(|d: FunctionDef| d@)
}

pub proof fn lemma_ids_view_push(s: Seq<ModuleIdentity>, x: ModuleIdentity)
    ensures
        ids_view(s.push(x)) == ids_view(s).push(x@),
{
    assert(ids_view(s.push(x)) =~= ids_view(s).push(x@));
}

pub proof fn lemma_fields_view_push(s: Seq<FieldDef>, x: FieldDef)
    ensures
        fields_view(s.push(x)) == fields_view(s).push(x@),
{
    assert(fields_view(s.push(x)) =~= fields_view(s).push(x@));
}

pub proof fn lemma_structs_view_push(s: Seq<StructDef>, x: StructDef)
    ensures
        structs_view(s.push(x)) == structs_view(s).push(x@),
{
    assert(structs_view(s.push(x)) =~= structs_view(s).push(x@));
}

pub proof fn lemma_funs_view_push(s: Seq<FunctionDef>, x: FunctionDef)
    ensures
        funs_view(s.push(x)) == funs_view(s).push(x@),
{
    assert(funs_view(s.push(x)) =~= funs_view(s).push(x@));
}

/// A deserialized, bounds-checked, bytecode-verified module: its identity,
/// declared structs and functions, and the identities it depends on.
#[derive(Debug, Clone, PartialEq, Eq)]
pub struct VerifiedModule {
    pub address: u128,
    pub name: Vec<u8>,
    pub deps: Vec<ModuleIdentity>,
    pub structs: Vec<StructDef>,
    pub functions: Vec<FunctionDef>,
}

#[verifier::ext_equal]
pub ghost struct ModuleView {
    pub address: u128,
    pub name: Seq<u8>,
    pub deps: Seq<IdView>,
    pub structs: Seq<StructView>,
    pub functions: Seq<FunView>,
}

impl ModuleView {
    pub open spec fn id(self) -> IdView {
        IdView { address: self.address, name: self.name }
    }
}

impl View for VerifiedModule {
    type V = ModuleView;

    open spec fn view(&self) -> ModuleView {
        ModuleView {
            address: self.address,
            name: self.name@,
            deps: ids_view(self.deps@),
            structs: structs_view(self.structs@),
            functions: funs_view(self.functions@),
        }
    }
}

impl VerifiedModule {
    /// The identity under which this module is published.
    pub fn self_id(&self) -> (r: ModuleIdentity)
        ensures
            r@ == self@.id(),
    {
        ModuleIdentity { address: self.address, name: dup_bytes(&self.name) }
    }
}

/// The signature-only projection used for compatibility comparison: the struct
/// layouts and the public function signatures.
#[derive(Debug, Clone, PartialEq, Eq)]
pub struct NormalizedModule {
    pub structs: Vec<StructDef>,
    pub functions: Vec<FunctionDef>,
}

#[verifier::ext_equal]
pub ghost struct NormView {
    pub structs: Seq<StructView>,
    pub functions: Seq<FunView>,
}

impl View for NormalizedModule {
    type V = NormView;

    open spec fn view(&self) -> NormView {
        NormView { structs: structs_view(self.structs@), functions: funs_view(self.functions@) }
    }
}

/// The public functions of a declaration list, in declaration order.
pub open spec fn pub_funs(funs: Seq<FunView>) -> Seq<FunView>
    decreases funs.len(),
{
    if funs.len() == 0 {
        Seq::empty()
    } else {
        pub_funs(funs.drop_last()) + if funs.last().visibility is Public {
            seq![funs.last()]
        } else {
            Seq::empty()
        }
    }
}

/// The signature projection of a module: its structs and its public functions.
pub open spec fn normalize_view(m: ModuleView) -> NormView {
    NormView { structs: m.structs, functions: pub_funs(m.functions) }
}

pub fn dup_id(id: &ModuleIdentity) -> (r: ModuleIdentity)
    ensures
        r@ == id@,
{
    ModuleIdentity { address: id.address, name: dup_bytes(&id.name) }
}

pub fn dup_types(v: &Vec<TypeTag>) -> (r: Vec<TypeTag>)
    ensures
        r@ == v@,
{
    let mut out: Vec<TypeTag> = Vec::new();
    let mut i: usize = 0;
    while i < v.len()
        invariant
            i <= v.len(),
            out@ == v@.subrange(0, i as int),
        decreases v.len() - i,
    {
        out.push(v[i]);
        proof {
            assert(out@ =~= v@.subrange(0, i + 1));
        }
        i += 1;
    }
    proof {
        assert(v@.subrange(0, v@.len() as int) =~= v@);
    }
    out
}

pub fn dup_field(f: &FieldDef) -> (r: FieldDef)
    ensures
        r@ == f@,
{
    FieldDef { name: dup_bytes(&f.name), ty: f.ty }
}

pub fn dup_struct(s: &StructDef) -> (r: StructDef)
    ensures
        r@ == s@,
{
    let mut fields: Vec<FieldDef> = Vec::new();
    let mut i: usize = 0;
    while i < s.fields.len()
        invariant
            i <= s.fields.len(),
            fields_view(fields@) == fields_view(s.fields@).subrange(0, i as int),
        decreases s.fields.len() - i,
    {
        let x = dup_field(&s.fields[i]);
        proof {
            lemma_fields_view_push(fields@, x);
            assert(fields_view(fields@).push(x@) =~= fields_view(s.fields@).subrange(0, i + 1));
        }
        fields.push(x);
        i += 1;
    }
    proof {
        assert(fields_view(s.fields@).subrange(0, s.fields@.len() as int) =~= fields_view(
            s.fields@,
        ));
    }
    let r = StructDef { name: dup_bytes(&s.name), abilities: s.abilities, fields };
    proof {
        assert(r@ =~= s@);
    }
    r
}

pub fn dup_fun(f: &FunctionDef) -> (r: FunctionDef)
    ensures
        r@ == f@,
{
    let r = FunctionDef {
        name: dup_bytes(&f.name),
        visibility: f.visibility,
        params: dup_types(&f.params),
        returns: dup_types(&f.returns),
    };
    proof {
        assert(r@ =~= f@);
    }
    r
}

pub fn dup_structs(v: &Vec<StructDef>) -> (r: Vec<StructDef>)
    ensures
        structs_view(r@) == structs_view(v@),
{
    let mut out: Vec<StructDef> = Vec::new();
    let mut i: usize = 0;
    while i < v.len()
        invariant
            i <= v.len(),
            structs_view(out@) == structs_view(v@).subrange(0, i as int),
        decreases v.len() - i,
    {
        let x = dup_struct(&v[i]);
        proof {
            lemma_structs_view_push(out@, x);
            assert(structs_view(out@).push(x@) =~= structs_view(v@).subrange(0, i + 1));
        }
        out.push(x);
        i += 1;
    }
    proof {
        assert(structs_view(v@).subrange(0, v@.len() as int) =~= structs_view(v@));
    }
    out
}

pub fn dup_module(m: &VerifiedModule) -> (r: VerifiedModule)
    ensures
        r@ == m@,
{
    let mut deps: Vec<ModuleIdentity> = Vec::new();
    let mut i: usize = 0;
    while i < m.deps.len()
        invariant
            i <= m.deps.len(),
            ids_view(deps@) == ids_view(m.deps@).subrange(0, i as int),
        decreases m.deps.len() - i,
    {
        let x = dup_id(&m.deps[i]);
        proof {
            lemma_ids_view_push(deps@, x);
            assert(ids_view(deps@).push(x@) =~= ids_view(m.deps@).subrange(0, i + 1));
        }
        deps.push(x);
        i += 1;
    }
    let structs = dup_structs(&m.structs);
    let mut functions: Vec<FunctionDef> = Vec::new();
    let mut k: usize = 0;
    while k < m.functions.len()
        invariant
            k <= m.functions.len(),
            funs_view(functions@) == funs_view(m.functions@).subrange(0, k as int),
        decreases m.functions.len() - k,
    {
        let x = dup_fun(&m.functions[k]);
        proof {
            lemma_funs_view_push(functions@, x);
            assert(funs_view(functions@).push(x@) =~= funs_view(m.functions@).subrange(0, k + 1));
        }
        functions.push(x);
        k += 1;
    }
    let r = VerifiedModule { address: m.address, name: dup_bytes(&m.name), deps, structs, functions };
    proof {
        assert(ids_view(m.deps@).subrange(0, m.deps@.len() as int) =~= ids_view(m.deps@));
        assert(funs_view(m.functions@).subrange(0, m.functions@.len() as int) =~= funs_view(
            m.functions@,
        ));
        assert(r@ =~= m@);
    }
    r
}

/// The signature projection of a module, as executable code.
pub fn normalize(m: &VerifiedModule) -> (r: NormalizedModule)
    ensures
        r@ == normalize_view(m@),
{
    let structs = dup_structs(&m.structs);
    let mut functions: Vec<FunctionDef> = Vec::new();
    let mut k: usize = 0;
    while k < m.functions.len()
        invariant
            k <= m.functions.len(),
            funs_view(functions@) == pub_funs(funs_view(m.functions@).subrange(0, k as int)),
        decreases m.functions.len() - k,
    {
        let ghost pre = funs_view(m.functions@).subrange(0, k as int);
        let ghost post = funs_view(m.functions@).subrange(0, k + 1);
        proof {
            assert(post.drop_last() =~= pre);
            assert(post.last() == m.functions@[k as int]@);
        }
        if m.functions[k].visibility == Visibility::Public {
            let x = dup_fun(&m.functions[k]);
            proof {
                lemma_funs_view_push(functions@, x);
                assert(pub_funs(pre).push(x@) =~= pub_funs(post));
            }
            functions.push(x);
        } else {
            proof {
                assert(pub_funs(pre) =~= pub_funs(post));
            }
        }
        k += 1;
    }
    proof {
        assert(funs_view(m.functions@).subrange(0, m.functions@.len() as int) =~= funs_view(
            m.functions@,
        ));
    }
    let r = NormalizedModule { structs, functions };
    proof {
        assert(r@ =~= normalize_view(m@));
    }
    r
}

} // verus!
