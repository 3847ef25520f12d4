use vstd::prelude::*;
use crate::bytes_util::{bytes_eq, dup_bytes};
use crate::kvlist::{assoc_map, lemma_assoc_contains, lemma_assoc_get};
use crate::module::{IdView, ModuleIdentity};

verus! {

/// Executable identity equality.
pub fn id_eq(a: &ModuleIdentity, b: &ModuleIdentity) -> (r: bool)
    ensures
        r == (a@ == b@),
{
    let r = a.address == b.address && bytes_eq(&a.name, &b.name);
    proof {
        if r {
            assert(a@ =~= b@);
        }
    }
    r
}

/// The persistent key-value mapping from module identity to serialized bytes:
/// the boundary this core commits to and reads from.
pub struct DataStore {
    entries: Vec<(ModuleIdentity, Vec<u8>)>,
}

impl View for DataStore {
    type V = Map<IdView, Seq<u8>>;

    closed spec fn view(&self) -> Map<IdView, Seq<u8>> {
        assoc_map(self.entries@)
    }
}

impl DataStore {
    /// An empty store.
    pub fn new() -> (r: Self)
        ensures
            r@ == Map::<IdView, Seq<u8>>::empty(),
    {
        let r = DataStore { entries: Vec::new() };
        proof {
            assert(r@ =~= Map::<IdView, Seq<u8>>::empty());
        }
        r
    }

    /// Whether a module is committed under this identity.
    pub fn exists_module(&self, id: &ModuleIdentity) -> (r: bool)
        ensures
            r == self@.contains_key(id@),
    {
        let mut found = false;
        let mut i: usize = 0;
        while i < self.entries.len()
            invariant
                i <= self.entries@.len(),
                found == exists|j: int| 0 <= j < i && self.entries@[j].0@ == id@,
            decreases self.entries.len() - i,
        {
            if id_eq(&self.entries[i].0, id) {
                found = true;
            }
            i += 1;
        }
        proof {
            lemma_assoc_contains(self.entries@, id@);
        }
        found
    }

    /// The committed bytes under this identity, if any.
    pub fn get_module(&self, id: &ModuleIdentity) -> (r: Option<Vec<u8>>)
        ensures
            match r {
                Some(b) => self@.contains_key(id@) && b@ == self@[id@],
                None => !self@.contains_key(id@),
            },
    {
        let mut i: usize = self.entries.len();
        while i > 0
            invariant
                i <= self.entries@.len(),
                forall|j: int| i <= j < self.entries@.len() ==> self.entries@[j].0@ != id@,
            decreases i,
        {
            i -= 1;
            if id_eq(&self.entries[i].0, id) {
                proof {
                    lemma_assoc_get(self.entries@, id@, i as int);
                }
                return Some(dup_bytes(&self.entries[i].1));
            }
        }
        proof {
            lemma_assoc_contains(self.entries@, id@);
        }
        None
    }

    /// Commit bytes under an identity, replacing what was there.
    pub fn put(&mut self, id: ModuleIdentity, blob: Vec<u8>)
        ensures
            final(self)@ == old(self)@.insert(id@, blob@),
    {
        let ghost s0 = self.entries@;
        self.entries.push((id, blob));
        proof {
            assert(self.entries@.drop_last() =~= s0);
        }
    }
}

} // verus!
