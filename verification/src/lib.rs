//! A verified profile store for per-project environment files: project
//! identification, the persisted profile registry with its uniqueness and
//! pointer invariants, content-addressed profile bodies with integrity
//! digests, and the decision cores of the commands that operate on them.

pub mod codec;
pub mod commands;
pub mod common;
pub mod digest;
pub mod errors;
pub mod ids;
