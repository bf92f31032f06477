//! Kernel-style event log: severity levels, the logger front end and the
//! fixed-size ring of recent entries.
pub mod levels;
pub mod logger;
pub mod ring_buffer;
