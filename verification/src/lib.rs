//! Public-input layout and circuit assignment for the DRG-based proof of
//! replication, stated and proved over plain values.

pub mod circuit;
pub mod compound;
pub mod drg;
pub mod error;
pub mod graph;
pub mod laws;
pub mod merkle;
pub mod por;
