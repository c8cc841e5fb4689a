//! Run configuration: the immutable parameters of one measurement run, and
//! the mode selection that the "wait" flag makes. Intervals and durations are
//! carried as whole nanoseconds; drivers that accept fractional seconds
//! convert before handing them in.

use vstd::prelude::*;

verus! {

/// Which transport carries the payloads.
#[derive(Clone, Copy, PartialEq, Eq, Structural, Debug)]
pub enum Transport {
    Tcp,
    Udp,
}

/// Operating mode of a run. Without the "wait" flag the engine pipelines:
/// it sends continuously and correlates replies asynchronously. With the
/// flag it runs synchronously: one outstanding request at a time, optionally
/// bounded by a wall-clock duration.
#[derive(Clone, Copy, PartialEq, Eq, Structural, Debug)]
pub enum Mode {
    Pipelined,
    Synchronous,
}

/// Immutable for the lifetime of a run: payload size, pacing interval,
/// mode flag, background-load count, output shape, and the optional duration
/// bound for synchronous mode.
#[derive(Clone, Copy, PartialEq, Eq, Structural, Debug)]
pub struct RunConfig {
    pub transport: Transport,
    pub payload_len: usize,
    pub interval_ns: u64,
    pub wait_only: bool,
    pub load_tasks: usize,
    pub structured: bool,
    pub duration_ns: u64,
}

impl RunConfig {
    /// A configuration is valid when the payload has room for the eight-byte
    /// sequence prefix.
    pub open spec fn valid(&self) -> bool {
        self.payload_len >= 8
    }

    /// Validate and build a configuration. Payloads smaller than the
    /// sequence prefix are rejected; everything else is accepted as given.
    pub fn new(
        transport: Transport,
        payload_len: usize,
        interval_ns: u64,
        wait_only: bool,
        load_tasks: usize,
        structured: bool,
        duration_ns: u64,
    ) -> (r: Option<RunConfig>)
        ensures
            payload_len >= 8 ==> r == Some(
                (RunConfig {
                    transport,
                    payload_len,
                    interval_ns,
                    wait_only,
                    load_tasks,
                    structured,
                    duration_ns,
                }),
            ),
            payload_len < 8 ==> r == None::<RunConfig>,
            r is Some ==> r->Some_0.valid(),
    {
        if payload_len >= 8 {
            Some(
                RunConfig {
                    transport,
                    payload_len,
                    interval_ns,
                    wait_only,
                    load_tasks,
                    structured,
                    duration_ns,
                },
            )
        } else {
            None
        }
    }

    /// The mode a run uses, selected by the "wait" flag.
    pub fn mode(&self) -> (m: Mode)
        ensures
            m == (if self.wait_only {
                Mode::Synchronous
            } else {
                Mode::Pipelined
            }),
    {
        if self.wait_only {
            Mode::Synchronous
        } else {
            Mode::Pipelined
        }
    }
}

} // verus!
