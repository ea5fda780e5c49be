//! The virtual-file-system interface and its registry.
//!
//! A [`Vfs`] resolves a name and options to an open [`VfsFile`]; a file
//! handle exposes offset-addressed reads and writes against a backing store
//! of named payloads, with the semantics of [`crate::payload`].  A
//! [`Registry`] is the explicit process-lifecycle state under which an
//! embedding engine installs file-system implementations by name, one of
//! them optionally as the default.

use crate::assoc::{
    assoc_map, distinct_names, lemma_assoc_contains, lemma_assoc_get, lemma_assoc_push,
};
use crate::payload::{read_fill, read_len, stored_payload, write_merge};
use vstd::prelude::*;

verus! {

/// The adapter's uniform error: an acquisition, store or bridge failure,
/// carrying a human-readable cause.
#[derive(Debug)]
pub struct VfsError(pub String);

impl VfsError {
    /// The human-readable cause.
    pub fn message(&self) -> (m: &str)
        ensures
            m@ == self.0@,
    {
        self.0.as_str()
    }
}

/// Options for opening a virtual file.
#[derive(Clone, Copy)]
pub struct OpenOptions {
    /// Let an absent name be materialized lazily, as an empty payload, on its
    /// first write; nothing is stored at open time either way.
    pub create: bool,
    /// Refuse to open a name that does not exist yet.
    pub read_only: bool,
    /// Request exclusive use of the name.  The in-memory backend serializes
    /// every operation through its transaction lock and accepts the flag
    /// without further effect.
    pub exclusive: bool,
}

impl OpenOptions {
    /// The default options: create if missing, read-write, shared.
    pub fn new() -> (r: Self)
        ensures
            r.create,
            !r.read_only,
            !r.exclusive,
    {
        OpenOptions { create: true, read_only: false, exclusive: false }
    }
}

/// One open logical file: offset-addressed reads and writes against a
/// backing store of named payloads.
///
/// `contents` gives the store's mapping from names to payloads and
/// `file_name` the name this handle addresses.  A backend whose reads and
/// writes cannot fail says so through `infallible`, and callers of such a
/// backend then know that every call returns `Ok`.
pub trait VfsFile: Sized {
    /// The store a handle of this kind reads and writes.
    type Store;

    /// The name of the payload this handle addresses.
    spec fn file_name(&self) -> Seq<char>;

    /// The named payloads the store holds.
    spec fn contents(store: Self::Store) -> Map<Seq<char>, Seq<u8>>;

    /// Whether reads and writes of this backend always succeed.
    spec fn infallible() -> bool;

    /// Reads up to `buf.len()` bytes starting at `offset` into the front of
    /// `buf`, leaving the rest of the buffer alone, and returns how many
    /// bytes were read: none past the payload's end, short when the buffer
    /// reaches past it, and none at all for an absent name.
    fn read_at(&self, store: &Self::Store, offset: u64, buf: &mut Vec<u8>) -> (r: Result<
        usize,
        VfsError,
    >)
        ensures
            final(buf)@.len() == old(buf)@.len(),
            r matches Ok(n) ==> ({
                let p = stored_payload(Self::contents(*store), self.file_name());
                &&& n == read_len(p, offset as nat, old(buf)@.len())
                &&& final(buf)@ == read_fill(p, offset as nat, old(buf)@)
            }),
            r is Err ==> final(buf)@ == old(buf)@,
            Self::infallible() ==> r is Ok,
    ;

    /// Writes all of `data` at `offset`, merging it into the stored payload:
    /// bytes outside the written range keep their value, a gap between the
    /// old end and `offset` is zero-filled, and an absent name is
    /// materialized.  Returns the number of bytes written, which on success
    /// is all of them; a failed write leaves the store unchanged.
    fn write_at(&self, store: &mut Self::Store, offset: u64, data: &[u8]) -> (r: Result<
        usize,
        VfsError,
    >)
        requires
            offset + data@.len() <= usize::MAX,
        ensures
            r matches Ok(n) ==> ({
                let p = stored_payload(Self::contents(*old(store)), self.file_name());
                &&& n == data@.len()
                &&& Self::contents(*final(store)) == Self::contents(*old(store)).insert(
                    self.file_name(),
                    write_merge(p, offset as nat, data@),
                )
            }),
            r is Err ==> Self::contents(*final(store)) == Self::contents(*old(store)),
            Self::infallible() ==> r is Ok,
    ;
}

/// A virtual file system: resolves a non-empty name and options to an open
/// file handle bound to the system's shared store.
pub trait Vfs: Sized {
    type File: VfsFile;

    /// On which names and options an open succeeds.
    spec fn can_open(&self, name: Seq<char>, options: OpenOptions) -> bool;

    /// Opens the file named `name`.  No payload is touched at open time.
    fn open(&self, name: &str, options: OpenOptions) -> (r: Result<Self::File, VfsError>)
        requires
            name@.len() > 0,
        ensures
            r is Ok <==> self.can_open(name@, options),
            r matches Ok(f) ==> f.file_name() == name@,
    ;
}

/// The registration point under which file-system implementations are
/// installed by name.  Registering a name that is already taken is refused,
/// and what was installed under the name stands; the registry's view is the
/// mapping from installed names to their implementations.
pub struct Registry<V> {
    entries: Vec<(String, V)>,
    default_name: Option<String>,
}

impl<V> View for Registry<V> {
    type V = Map<Seq<char>, V>;

    closed spec fn view(&self) -> Map<Seq<char>, V> {
        assoc_map(self.entries@, |v: V| v)
    }
}

impl<V> Registry<V> {
    #[verifier::type_invariant]
    spec fn wf(&self) -> bool {
        &&& distinct_names(self.entries@)
        &&& (self.default_name matches Some(n) ==> assoc_map(self.entries@, |v: V| v).contains_key(
            n@,
        ))
    }

    /// The name unqualified opens resolve to, if one was made the default.
    pub closed spec fn spec_default(&self) -> Option<Seq<char>> {
        match self.default_name {
            Some(n) => Some(n@),
            None => None,
        }
    }

    /// An empty registry, as a process starts with.
    pub fn new() -> (r: Self)
        ensures
            r@ == Map::<Seq<char>, V>::empty(),
            r.spec_default() is None,
    {
        Registry { entries: Vec::new(), default_name: None }
    }

    /// The index of the entry named `key`, if one exists.
    fn position_of(&self, key: &String) -> (r: Option<usize>)
        ensures
            r matches Some(i) ==> i < self.entries@.len() && self.entries@[i as int].0@ == key@,
            r is None ==> forall|i: int|
                0 <= i < self.entries@.len() ==> self.entries@[i].0@ != key@,
    {
        let mut i: usize = 0;
        while i < self.entries.len()
            invariant
                i <= self.entries@.len(),
                forall|j: int| 0 <= j < i ==> self.entries@[j].0@ != key@,
            decreases self.entries@.len() - i,
        {
            if self.entries[i].0 == *key {
                return Some(i);
            }
            i = i + 1;
        }
        None
    }

    /// Installs `vfs` under `name`, optionally as the default.  Fails, and
    /// changes nothing, exactly when the name is already registered.
    pub fn register_vfs(&mut self, name: &str, vfs: V, make_default: bool) -> (r: Result<
        (),
        VfsError,
    >)
        ensures
            r is Ok <==> !old(self)@.contains_key(name@),
            r matches Ok(_) ==> final(self)@ == old(self)@.insert(name@, vfs)
                && final(self).spec_default() == (if make_default {
                Some(name@)
            } else {
                old(self).spec_default()
            }),
            r is Err ==> final(self)@ == old(self)@
                && final(self).spec_default() == old(self).spec_default(),
    {
        proof {
            use_type_invariant(&*self);
            lemma_assoc_contains(self.entries@, |v: V| v, name@);
        }
        let k: String = name.to_owned();
        match self.position_of(&k) {
            Some(i) => {
                proof {
                    assert(old(self).entries@[i as int].0@ == name@);
                }
                Err(VfsError("name is already registered".to_owned()))
            },
            None => {
                let mut d: Option<String> = None;
                std::mem::swap(&mut d, &mut self.default_name);
                let mut es: Vec<(String, V)> = Vec::new();
                std::mem::swap(&mut es, &mut self.entries);
                es.push((k, vfs));
                proof {
                    lemma_assoc_push(old(self).entries@, |v: V| v, es@.last());
                }
                self.entries = es;
                if make_default {
                    self.default_name = Some(name.to_owned());
                } else {
                    self.default_name = d;
                }
                Ok(())
            },
        }
    }

    /// The implementation registered under `name`, if any.
    pub fn resolve(&self, name: &str) -> (r: Option<&V>)
        ensures
            r matches Some(v) ==> self@.contains_key(name@) && *v == self@[name@],
            r is None <==> !self@.contains_key(name@),
    {
        proof {
            use_type_invariant(&*self);
            lemma_assoc_contains(self.entries@, |v: V| v, name@);
        }
        let k: String = name.to_owned();
        match self.position_of(&k) {
            Some(i) => {
                proof {
                    lemma_assoc_get(self.entries@, |v: V| v, i as int);
                }
                Some(&self.entries[i].1)
            },
            None => None,
        }
    }

    /// The implementation registered as the default, if one was.
    pub fn resolve_default(&self) -> (r: Option<&V>)
        ensures
            r matches Some(v) ==> (self.spec_default() matches Some(n) && self@.contains_key(n)
                && *v == self@[n]),
            r is None <==> self.spec_default() is None,
    {
        proof {
            use_type_invariant(&*self);
        }
        match &self.default_name {
            Some(n) => self.resolve(n.as_str()),
            None => None,
        }
    }
}

} // verus!
