//! A dot-file keeper: it relocates configuration files into a
//! synchronized directory and replaces their original locations with
//! symbolic links, so the directory can be version-controlled and later
//! re-applied to a fresh home directory. This crate is the engine — path
//! rewriting, the plans and rules of every reconciliation step, and the
//! configuration store — stated in contracts and proved; the filesystem
//! calls that carry a plan out are made by the surrounding program, which
//! reports each step's outcome back in.
pub mod config;
pub mod errors;
pub mod fs_model;
pub mod paths;
pub mod reconcile;
pub mod registrar;
