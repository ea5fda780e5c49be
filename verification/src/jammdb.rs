//! The transactional key-value store.
//!
//! An in-memory store with whole-value semantics: a database hands out
//! transactions, and a transaction offers `get` and `put` over named byte
//! payloads, where a `put` replaces the payload under its name wholesale.  A
//! transaction takes the database's contents when it is opened; the adapter
//! opens one long-lived transaction and routes every file operation through
//! it, so that all handles observe the same bytes.

use crate::assoc::{
    assoc_map, distinct_names, lemma_assoc_contains, lemma_assoc_get, lemma_assoc_push,
    lemma_assoc_update,
};
use crate::payload::copy_bytes;
use vstd::pervasive::VecAdditionalExecFns;
use vstd::prelude::*;

verus! {

/// The contents a sequence of store entries denotes: each name maps to the
/// byte sequence of its payload.
pub open spec fn store_map(s: Seq<(String, Vec<u8>)>) -> Map<Seq<char>, Seq<u8>> {
    assoc_map(s, |v: Vec<u8>| v@)
}

/// A transaction over the store: mutually-exclusive whole-value access to the
/// mapping from names to byte payloads.  Its view is that mapping.
pub struct Transaction {
    entries: Vec<(String, Vec<u8>)>,
}

impl View for Transaction {
    type V = Map<Seq<char>, Seq<u8>>;

    closed spec fn view(&self) -> Map<Seq<char>, Seq<u8>> {
        store_map(self.entries@)
    }
}

impl Transaction {
    #[verifier::type_invariant]
    spec fn wf(&self) -> bool {
        distinct_names(self.entries@)
    }

    /// A transaction over nothing.
    pub(crate) fn empty() -> (r: Self)
        ensures
            r@ == Map::<Seq<char>, Seq<u8>>::empty(),
    {
        Transaction { entries: Vec::new() }
    }

    /// The index of the entry named `key`, if one exists.
    fn position_of(&self, key: &String) -> (r: Option<usize>)
        ensures
            r matches Some(i) ==> i < self.entries@.len() && self.entries@[i as int].0@ == key@,
            r is None ==> forall|i: int|
                0 <= i < self.entries@.len() ==> self.entries@[i].0@ != key@,
    {
        let mut i: usize = 0;
        while i < self.entries.len()
            invariant
                i <= self.entries@.len(),
                forall|j: int| 0 <= j < i ==> self.entries@[j].0@ != key@,
            decreases self.entries@.len() - i,
        {
            if self.entries[i].0 == *key {
                return Some(i);
            }
            i = i + 1;
        }
        None
    }

    /// The current payload under `key`, or nothing when the store holds no
    /// entry under it.
    pub fn get(&self, key: &str) -> (r: Option<Vec<u8>>)
        ensures
            r matches Some(v) ==> self@.contains_key(key@) && v@ == self@[key@],
            r is None <==> !self@.contains_key(key@),
    {
        proof {
            use_type_invariant(&*self);
        }
        let k: String = key.to_owned();
        match self.position_of(&k) {
            Some(i) => {
                proof {
                    lemma_assoc_get(self.entries@, |v: Vec<u8>| v@, i as int);
                }
                Some(copy_bytes(self.entries[i].1.as_slice()))
            },
            None => {
                proof {
                    lemma_assoc_contains(self.entries@, |v: Vec<u8>| v@, key@);
                }
                None
            },
        }
    }

    /// Replaces the payload under `key` wholesale with a copy of `value`,
    /// creating the entry if the name is new.
    pub fn put(&mut self, key: &str, value: &[u8]) -> (r: Result<(), &'static str>)
        ensures
            r is Ok,
            final(self)@ == old(self)@.insert(key@, value@),
    {
        proof {
            use_type_invariant(&*self);
        }
        let k: String = key.to_owned();
        let v: Vec<u8> = copy_bytes(value);
        let pos = self.position_of(&k);
        let mut es: Vec<(String, Vec<u8>)> = Vec::new();
        std::mem::swap(&mut es, &mut self.entries);
        match pos {
            Some(i) => {
                es.set(i, (k, v));
                proof {
                    lemma_assoc_update(
                        old(self).entries@,
                        |v: Vec<u8>| v@,
                        i as int,
                        es@[i as int],
                    );
                }
            },
            None => {
                es.push((k, v));
                proof {
                    lemma_assoc_push(
                        old(self).entries@,
                        |v: Vec<u8>| v@,
                        es@.last(),
                    );
                }
            },
        }
        self.entries = es;
        Ok(())
    }

    /// A transaction holding the same contents.
    pub(crate) fn duplicate(&self) -> (r: Self)
        ensures
            r@ == self@,
    {
        proof {
            use_type_invariant(&*self);
        }
        let mut t = Transaction::empty();
        let mut i: usize = 0;
        while i < self.entries.len()
            invariant
                i <= self.entries@.len(),
                t@ == store_map(self.entries@.take(i as int)),
            decreases self.entries@.len() - i,
        {
            let e = &self.entries[i];
            let _ = t.put(e.0.as_str(), e.1.as_slice());
            proof {
                assert(self.entries@.take(i + 1).drop_last() =~= self.entries@.take(i as int));
                assert(self.entries@.take(i + 1).last() == self.entries@[i as int]);
            }
            i = i + 1;
        }
        proof {
            assert(self.entries@.take(self.entries@.len() as int) =~= self.entries@);
        }
        t
    }
}

/// A database handle over the in-memory store.
pub struct DB {
    data: Transaction,
}

impl View for DB {
    type V = Map<Seq<char>, Seq<u8>>;

    closed spec fn view(&self) -> Map<Seq<char>, Seq<u8>> {
        self.data@
    }
}

impl DB {
    /// Opens a transaction holding the database's current contents.  The
    /// `writable` flag is accepted for interface fidelity; every transaction
    /// of this in-memory store may write.
    pub fn tx(&self, _writable: bool) -> (r: Result<Transaction, &'static str>)
        ensures
            r matches Ok(t) ==> t@ == self@,
            r is Ok,
    {
        Ok(self.data.duplicate())
    }
}

/// Options for opening a database.
pub struct OpenOptions;

impl OpenOptions {
    pub fn new() -> (r: Self) {
        OpenOptions
    }

    /// Opens a fresh, empty in-memory database.  The path is accepted for
    /// interface fidelity and not consulted: nothing persists.
    pub fn open(&self, _path: &str) -> (r: Result<DB, &'static str>)
        ensures
            r matches Ok(db) ==> db@ == Map::<Seq<char>, Seq<u8>>::empty(),
            r is Ok,
    {
        Ok(DB { data: Transaction::empty() })
    }
}

} // verus!
