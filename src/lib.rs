//! Streaming core of a real-time voice conversion filter: frame geometry,
//! sample queues between the host callback and a worker, sliding analysis
//! windows, and SOLA stitching of successive converted windows.
//!
//! Everything here is generic over the sample type; the arithmetic on
//! samples (mixing, correlation, resampling) is handed in by the caller.
pub mod engine;
pub mod fifo;
pub mod geometry;
pub mod sola;
pub mod stream;
