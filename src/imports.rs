//! The host functions offered to a module at instantiation, by namespace
//! and name.

use crate::host::FuncSig;
use vstd::prelude::*;

verus! {

/// A host function offered under `namespace`.`name`, with its signature.
#[derive(Clone, Debug, PartialEq)]
pub struct ImportEntry {
    pub namespace: String,
    pub name: String,
    pub signature: FuncSig,
}

/// The host functions offered to a module; a namespace and name pair
/// appears at most once.
pub struct ImportObject {
    entries: Vec<ImportEntry>,
}

/// The entry stands under `namespace`.`name`.
pub open spec fn named(e: ImportEntry, namespace: Seq<char>, name: Seq<char>) -> bool {
    e.namespace@ == namespace && e.name@ == name
}

impl ImportObject {
    /// The entries, in order of first registration.
    pub closed spec fn entries(&self) -> Seq<ImportEntry> {
        self.entries@
    }

    /// No pair of entries shares a namespace and name.
    pub closed spec fn wf(&self) -> bool {
        forall|i: int, j: int|
            0 <= i < j < self.entries@.len() ==> !named(
                #[trigger] self.entries@[i],
                (#[trigger] self.entries@[j]).namespace@,
                self.entries@[j].name@,
            )
    }

    /// An empty set of imports.
    pub fn new() -> (r: ImportObject)
        ensures
            r.wf(),
            r.entries().len() == 0,
    {
        ImportObject { entries: Vec::new() }
    }

    fn position(&self, namespace: &String, name: &String) -> (r: Option<usize>)
        ensures
            match r {
                Some(k) => k < self.entries@.len() && named(
                    self.entries@[k as int],
                    namespace@,
                    name@,
                ),
                None => forall|k: int|
                    0 <= k < self.entries@.len() ==> !named(
                        #[trigger] self.entries@[k],
                        namespace@,
                        name@,
                    ),
            },
    {
        let mut i: usize = 0;
        while i < self.entries.len()
            invariant
                i <= self.entries@.len(),
                forall|k: int|
                    0 <= k < i ==> !named(#[trigger] self.entries@[k], namespace@, name@),
            decreases self.entries.len() - i,
        {
            if self.entries[i].namespace == *namespace && self.entries[i].name == *name {
                return Some(i);
            }
            i += 1;
        }
        None
    }

    /// Offers a host function under `namespace`.`name`; an earlier one
    /// under the same pair is replaced in place.
    pub fn register(&mut self, namespace: String, name: String, signature: FuncSig)
        requires
            old(self).wf(),
        ensures
            final(self).wf(),
            exists|k: int|
                0 <= k < final(self).entries().len() && final(self).entries()[k] == (ImportEntry {
                    namespace,
                    name,
                    signature,
                }),
            forall|k: int|
                0 <= k < old(self).entries().len() && !named(
                    #[trigger] old(self).entries()[k],
                    namespace@,
                    name@,
                ) ==> final(self).entries()[k] == old(self).entries()[k],
    {
        let entry = ImportEntry { namespace, name, signature };
        match self.position(&entry.namespace, &entry.name) {
            Some(k) => {
                self.entries.set(k, entry);
                assert(self.entries()[k as int] == entry);
            },
            None => {
                self.entries.push(entry);
                assert(self.entries()[self.entries@.len() - 1] == entry);
            },
        }
    }

    /// The host function under `namespace`.`name`, if any.
    pub fn get(&self, namespace: &String, name: &String) -> (r: Option<&ImportEntry>)
        ensures
            r matches Some(e) ==> named(*e, namespace@, name@) && self.entries().contains(*e),
            r is None ==> forall|k: int|
                0 <= k < self.entries().len() ==> !named(
                    #[trigger] self.entries()[k],
                    namespace@,
                    name@,
                ),
    {
        match self.position(namespace, name) {
            Some(k) => Some(&self.entries[k]),
            None => None,
        }
    }
}

} // verus!
