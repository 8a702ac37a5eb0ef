//! Host telemetry: turns raw operating-system readings into the records a
//! caller receives, and keeps the state of the background process sampler.
//!
//! Fractional quantities are fixed-point integers counted in thousandths of
//! their unit.

pub mod memory;
pub mod process;
pub mod snapshot;
pub mod collector;
pub mod cpu;
pub mod control;
pub mod disk;
pub mod network;
pub mod text;
pub mod services;
pub mod ram;
pub mod gpu;
