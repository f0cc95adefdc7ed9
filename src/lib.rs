//! A virtio-vsock packet built over a flat guest memory from a descriptor chain,
//! with bounds-checked header and data views and typed field accessors.
pub mod memory;
pub mod chain;
pub mod packet;
pub mod ops;
pub mod laws;
