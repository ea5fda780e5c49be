//! The adapter: virtual files over the transactional key-value store.
//!
//! [`AsyncJammDbVfs`] opens one long-lived transaction when it is
//! constructed and binds every file handle it opens to that transaction, so
//! distinct opens of one name observe the same bytes.  A handle holds only
//! the name it addresses and no cursor: every call carries its own offset.
//! Each write reads the stored payload, merges the new bytes into it, and
//! puts the whole value back, so bytes outside the written range survive.
//! The asynchronous dispatch these names allude to - offloading each call to
//! a thread that may block on the transaction's lock - is the embedding
//! runtime's part and carries no logic of its own; everything here is
//! synchronous and verified.

use crate::jammdb;
use crate::jammdb::Transaction;
use crate::payload::{merge_bytes, read_bytes_into, read_fill, read_len, stored_payload,
    write_merge};
use crate::vfs::{OpenOptions, Vfs, VfsError, VfsFile};
use vstd::prelude::*;

verus! {

/// The file-system factory: owns the store's one long-lived transaction,
/// shared by every handle it opens.  Its view is the transaction's mapping
/// from names to payloads.
pub struct AsyncJammDbVfs {
    txn: Transaction,
}

/// One open logical file: the name it addresses within the shared
/// transaction's key space.
pub struct AsyncJammDbFile {
    key: String,
}

impl View for AsyncJammDbVfs {
    type V = Map<Seq<char>, Seq<u8>>;

    closed spec fn view(&self) -> Map<Seq<char>, Seq<u8>> {
        self.txn@
    }
}

impl AsyncJammDbVfs {
    /// Opens the backing store at `path` and the one transaction every
    /// handle will share.  The in-memory store starts empty.
    pub fn new(path: &str) -> (r: Self)
        ensures
            r@ == Map::<Seq<char>, Seq<u8>>::empty(),
    {
        let db = match jammdb::OpenOptions::new().open(path) {
            Ok(db) => db,
            Err(_) => unreached(),
        };
        let txn = match db.tx(true) {
            Ok(t) => t,
            Err(_) => unreached(),
        };
        AsyncJammDbVfs { txn }
    }

    /// Reads through `file` from the shared transaction; see
    /// [`VfsFile::read_at`].  This backend's reads always succeed.
    pub fn read_at(&self, file: &AsyncJammDbFile, offset: u64, buf: &mut Vec<u8>) -> (r: Result<
        usize,
        VfsError,
    >)
        ensures
            final(buf)@.len() == old(buf)@.len(),
            r matches Ok(n) ==> ({
                let p = stored_payload(self@, file.file_name());
                &&& n == read_len(p, offset as nat, old(buf)@.len())
                &&& final(buf)@ == read_fill(p, offset as nat, old(buf)@)
            }),
            r is Ok,
    {
        file.read_at(&self.txn, offset, buf)
    }

    /// Writes through `file` into the shared transaction; see
    /// [`VfsFile::write_at`].  This backend's writes always succeed.
    pub fn write_at(&mut self, file: &AsyncJammDbFile, offset: u64, data: &[u8]) -> (r: Result<
        usize,
        VfsError,
    >)
        requires
            offset + data@.len() <= usize::MAX,
        ensures
            r matches Ok(n) ==> n == data@.len() && final(self)@ == old(self)@.insert(
                file.file_name(),
                write_merge(
                    stored_payload(old(self)@, file.file_name()),
                    offset as nat,
                    data@,
                ),
            ),
            r is Ok,
    {
        file.write_at(&mut self.txn, offset, data)
    }
}

impl Vfs for AsyncJammDbVfs {
    type File = AsyncJammDbFile;

    /// Any name opens read-write; a read-only open asks for a name that
    /// already exists.
    open spec fn can_open(&self, name: Seq<char>, options: OpenOptions) -> bool {
        !(options.read_only && !self@.contains_key(name))
    }

    fn open(&self, name: &str, options: OpenOptions) -> Result<AsyncJammDbFile, VfsError> {
        if options.read_only {
            match self.txn.get(name) {
                Some(_) => Ok(AsyncJammDbFile { key: name.to_owned() }),
                None => Err(VfsError("read-only open of an absent name".to_owned())),
            }
        } else {
            Ok(AsyncJammDbFile { key: name.to_owned() })
        }
    }
}

impl VfsFile for AsyncJammDbFile {
    type Store = Transaction;

    closed spec fn file_name(&self) -> Seq<char> {
        self.key@
    }

    open spec fn contents(store: Transaction) -> Map<Seq<char>, Seq<u8>> {
        store@
    }

    open spec fn infallible() -> bool {
        true
    }

    fn read_at(&self, store: &Transaction, offset: u64, buf: &mut Vec<u8>) -> Result<
        usize,
        VfsError,
    > {
        match store.get(self.key.as_str()) {
            Some(p) => Ok(read_bytes_into(&p, offset, buf)),
            None => Ok(0),
        }
    }

    fn write_at(&self, store: &mut Transaction, offset: u64, data: &[u8]) -> Result<
        usize,
        VfsError,
    > {
        let old_p: Vec<u8> = match store.get(self.key.as_str()) {
            Some(p) => p,
            None => Vec::new(),
        };
        let merged = merge_bytes(&old_p, offset, data);
        match store.put(self.key.as_str(), merged.as_slice()) {
            Ok(_) => Ok(data.len()),
            Err(_) => unreached(),
        }
    }
}

} // verus!
