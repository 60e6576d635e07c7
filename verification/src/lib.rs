//! A verified virtual filesystem switch (VFS).
//!
//! The crate provides the node abstraction that lets heterogeneous
//! filesystem implementations be mounted into one global namespace, the
//! capability-gated file and directory handles built on top of it, and the
//! root-directory / mount-table structure that resolves paths across mount
//! boundaries.
//!
//! - [`path`] — the path model: normalized absolute paths and opaque
//!   relative fragments.
//! - [`structs`] — attribute records and the error taxonomy.
//! - [`node`] — the node interface: the polymorphic contract with its
//!   abstract model, and the filesystem-level operations.
//! - [`ramfs`] — a RAM-backed filesystem implementing that contract.
//! - [`root`] — the root directory and mount table, with
//!   longest-prefix dispatch.
//! - [`fops`] — capability-gated file and directory handles and the
//!   path-addressed facade.
//! - [`laws`] — proofs that relate several operations.

pub mod fops;
pub mod laws;
pub mod node;
pub mod path;
pub mod ramfs;
pub mod root;
pub mod structs;
