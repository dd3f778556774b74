//! Lazy materialisation of a remote, read-only archive into a local sparse
//! cache, and the read-only filesystem surface built on top of it.
//!
//! The library holds the decisions of the engine and proves them: the
//! chunk arithmetic of a fetch ([`chunk`]), the detection of holes
//! ([`hole`]), the steps of the intercepted read ([`hook_helper`]), the
//! plans of bootstrap and fill ([`repo`]), a model of the cache file with
//! the laws of every read through it ([`cache`]), the status of an inode
//! ([`inode`], [`stat`]), extended attributes ([`xattr`]), the filesystem
//! operations and callbacks ([`squashfs`], [`ops`]), and the front end that
//! serves an archive to an object store ([`lambda`], [`vmap`], [`output`]).
//! Reading and writing files, the network and the archive library itself
//! are the caller's part; [`codec`] holds the few calls into other crates
//! whose results are taken on trust.

pub mod cache;
pub mod chunk;
pub mod codec;
pub mod errors;
pub mod hole;
pub mod hook_helper;
pub mod inode;
pub mod lambda;
pub mod ops;
pub mod output;
pub mod repo;
pub mod squashfs;
pub mod stat;
pub mod superblock;
pub mod text;
pub mod vmap;
pub mod xattr;
