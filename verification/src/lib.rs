//! An offset-addressed virtual-file layer over a transactional key-value
//! store.
//!
//! A logical file is a named byte payload held whole under one key of the
//! store.  File handles expose `read_at` and `write_at`; a write merges its
//! bytes into the stored payload (zero-filling any gap it jumps over) instead
//! of replacing bytes it was never asked to touch, and a read past the end of
//! the payload yields nothing rather than an error.  The byte-level semantics
//! live in [`payload`], the store in [`jammdb`], the file-system interface and
//! registry in [`vfs`], and the adapter tying them together in [`adapter`].
//! The asynchronous dispatch that an embedding runtime needs (offloading each
//! call to a thread that may block on the store's lock) is deliberately left
//! to the embedding side: everything here is synchronous and verified.

pub mod adapter;
pub mod assoc;
pub mod jammdb;
pub mod payload;
pub mod sqlite;
pub mod vfs;
