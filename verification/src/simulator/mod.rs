//! A simulator for the table-driven frame format: a register file and core with a
//! three-stage front end, and the state behind its terminal view.
pub mod memory;
pub mod processor;
pub mod pipeline;
pub mod logger;
pub mod app;
pub mod view;
