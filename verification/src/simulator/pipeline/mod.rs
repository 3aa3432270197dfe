//! One file per pipeline stage. Each stage owns the latch it produces plus
//! the function that fills it from the previous stage's latch. `valid` on a
//! latch is the bubble bit: false means "nothing here, ignore the rest".
pub mod decode;
pub mod fetch;
pub mod execute;
