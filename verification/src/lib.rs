//! Vea: a variably encoded 64-bit big-endian architecture, with two
//! assemblers and three simulators for it.
pub mod text;
pub mod vea_sim;
pub mod assembler;
pub mod simulator;
