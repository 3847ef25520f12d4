use vstd::prelude::*;
use crate::kvlist::{assoc_map, lemma_assoc_contains, lemma_assoc_get};
use crate::module::{IdView, ModuleIdentity, ModuleView, VerifiedModule, dup_module};
use crate::store::id_eq;

verus! {

/// The in-memory table of verified, linked modules, keyed by identity and
/// built on demand from the data store.
pub struct LoaderCache {
    entries: Vec<(ModuleIdentity, VerifiedModule)>,
}

impl View for LoaderCache {
    type V = Map<IdView, ModuleView>;

    closed spec fn view(&self) -> Map<IdView, ModuleView> {
        assoc_map(self.entries@)
    }
}

impl LoaderCache {
    /// An empty cache.
    pub fn new() -> (r: Self)
        ensures
            r@ == Map::<IdView, ModuleView>::empty(),
    {
        let r = LoaderCache { entries: Vec::new() };
        proof {
            assert(r@ =~= Map::<IdView, ModuleView>::empty());
        }
        r
    }

    /// The cached module under this identity, if any.
    pub fn lookup(&self, id: &ModuleIdentity) -> (r: Option<VerifiedModule>)
        ensures
            match r {
                Some(m) => self@.contains_key(id@) && m@ == self@[id@],
                None => !self@.contains_key(id@),
            },
    {
        let mut i: usize = self.entries.len();
        while i > 0
            invariant
                i <= self.entries@.len(),
                forall|j: int| i <= j < self.entries@.len() ==> self.entries@[j].0@ != id@,
            decreases i,
        {
            i -= 1;
            if id_eq(&self.entries[i].0, id) {
                proof {
                    lemma_assoc_get(self.entries@, id@, i as int);
                }
                return Some(dup_module(&self.entries[i].1));
            }
        }
        proof {
            lemma_assoc_contains(self.entries@, id@);
        }
        None
    }

    /// Cache a verified module under its identity.
    pub fn insert(&mut self, id: ModuleIdentity, m: VerifiedModule)
        ensures
            final(self)@ == old(self)@.insert(id@, m@),
    {
        let ghost s0 = self.entries@;
        self.entries.push((id, m));
        proof {
            assert(self.entries@.drop_last() =~= s0);
        }
    }

    /// Drop every cached entry.
    pub fn clear(&mut self)
        ensures
            final(self)@ == Map::<IdView, ModuleView>::empty(),
    {
        self.entries = Vec::new();
        proof {
            assert(self@ =~= Map::<IdView, ModuleView>::empty());
        }
    }
}

} // verus!
