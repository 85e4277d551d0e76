//! Line-framed, readiness-driven serial port I/O: the decision core.
//!
//! The crate has three layers. [`port`] tracks the read and write readiness of
//! one serial device and turns what the device driver reports into a three-way
//! result that shows suspension in its type. [`frame`] cuts newline-terminated
//! text frames out of a byte buffer. [`stream`] owns the accumulation buffer
//! and decides, step by step, whether to emit a frame, to read, to suspend or
//! to stop.
//!
//! Nothing here touches a device or a scheduler: a driver performs the reads
//! that the stream asks for and reports how they went.

pub mod frame;
pub mod port;
pub mod stream;
