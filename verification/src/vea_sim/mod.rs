//! The Vea assembler and its two simulators: `onestep` retires one whole
//! instruction per call, `nstep` models a four-stage in-order pipeline.
pub mod error;
pub mod isa;

pub use error::{Error, Result};
pub mod memory;
pub mod assembler;
pub mod shared;
pub mod cli;
pub mod agreement;
pub mod nstep;
pub mod onestep;
pub mod ui;
