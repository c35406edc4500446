//! Runtime support for a small compiled language: tagged one-word values,
//! a heap of text and list objects, the operators over them, and the
//! handle tables behind its socket services.
pub mod value;
pub mod heap;
pub mod text;
pub mod ops;
pub mod collections;
pub mod host;
pub mod socket;
pub mod kernels;
