//! Ping-side round-trip latency measurement engine.
//!
//! A "ping" endpoint sends fixed-size payloads whose first eight bytes carry a
//! little-endian sequence number, and measures the time until a matching echo
//! returns. This crate holds the verified core of that endpoint: the payload
//! codec, the pending-request table that correlates replies with their send
//! times, the send/receive state machines for both operating modes (pipelined
//! and synchronous), the defensive reassembly of partial reads, the sample
//! reporter, and the background-load step. Transport I/O, clocks, threads and
//! argument handling live outside the library; drivers feed the engine plain
//! values (byte buffers and nanosecond timestamps) and perform the actions it
//! directs.

pub mod codec;
pub mod config;
pub mod engine;
pub mod load;
pub mod pending;
pub mod receive;
pub mod report;
