//! A lattice simulator of viral infection spread and its containment by
//! interferon signalling: the discrete, verified core of the engine.
pub mod cell;
pub mod event;
pub mod lattice;
pub mod laws;
pub mod molecule;
pub mod propensity;
pub mod randomness;
