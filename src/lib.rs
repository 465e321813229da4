//! Streaming demultiplexer for a line-oriented serial protocol: raw bytes are
//! framed into CR LF terminated lines, lines are assigned to channels by their
//! position in a cycle, and each poll's pending values are flushed as
//! timestamped samples under one of three aggregation modes.

pub mod frame;
pub mod demux;
pub mod aggregate;
pub mod session;
pub mod laws;
