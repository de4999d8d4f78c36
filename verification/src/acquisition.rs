//! Decision logic of the acquisition loop.
//!
//! The loop that owns the serial device alternates outside work (opening the
//! device, reading bytes, sleeping out a backoff interval) with decisions.
//! The decisions live here as a verified state machine: the driver reports
//! each event and performs the single action returned. The sensor is
//! expected to stream indefinitely, so there is no terminal success state —
//! only cancellation stops the loop.

use vstd::prelude::*;

use crate::codec::DecodeEvent;
use crate::frame::SensorFrame;

verus! {

/// First retry delay after a transient failure.
pub const INITIAL_BACKOFF_MS: u64 = 500;

/// Ceiling on the retry delay: doubling stops here.
pub const MAX_BACKOFF_MS: u64 = 5000;

/// Bounded exponential backoff: the delay to wait before the next reopen
/// attempt, doubling after each use up to a fixed ceiling.
#[derive(Clone, Copy, Debug, PartialEq, Eq, Structural)]
pub struct BackoffState {
    pub initial_ms: u64,
    pub max_ms: u64,
    pub current_ms: u64,
}

impl BackoffState {
    /// Well-formedness: the delay stays between its initial value and the
    /// ceiling, and the ceiling leaves room to double without overflow.
    pub open spec fn wf(&self) -> bool {
        &&& 0 < self.initial_ms <= self.max_ms
        &&& self.initial_ms <= self.current_ms <= self.max_ms
        &&& self.max_ms <= u64::MAX / 2
    }

    /// The delay after one more transient failure: doubled, capped at the
    /// ceiling.
    pub open spec fn doubled_ms(&self) -> u64 {
        if self.current_ms * 2 <= self.max_ms {
            (self.current_ms * 2) as u64
        } else {
            self.max_ms
        }
    }

    /// A backoff at its initial delay.
    pub fn new(initial_ms: u64, max_ms: u64) -> (b: BackoffState)
        requires
            0 < initial_ms <= max_ms,
            max_ms <= u64::MAX / 2,
        ensures
            b == (BackoffState { initial_ms, max_ms, current_ms: initial_ms }),
            b.wf(),
    {
        BackoffState { initial_ms, max_ms, current_ms: initial_ms }
    }
}

/// Consecutive transient failures wait strictly longer each time until the
/// ceiling is reached, and never longer than the ceiling.
pub proof fn lemma_backoff_increases_then_caps(b: BackoffState)
    requires
        b.wf(),
    ensures
        b.doubled_ms() <= b.max_ms,
        b.current_ms < b.max_ms ==> b.doubled_ms() > b.current_ms,
        b.current_ms == b.max_ms ==> b.doubled_ms() == b.max_ms,
{
}

/// What the driver observed since the last decision.
pub enum AcqEvent {
    /// The serial device opened successfully.
    OpenSucceeded,
    /// The serial device could not be opened: transient, retried forever.
    OpenFailed,
    /// The codec decoded one checksum-valid frame from the stream.
    FrameDecoded(SensorFrame),
    /// The codec reported a checksum mismatch or an unsupported frame
    /// length: recoverable within the open connection.
    ProtocolAnomaly,
    /// A read error occurred or the stream ended: transient, the device is
    /// to be closed and reopened.
    StreamInterrupted,
    /// The process-wide cancellation signal fired.
    Cancelled,
}

/// What the driver must do next.
#[derive(Clone, Copy, Debug, PartialEq, Eq, Structural)]
pub enum AcqAction {
    /// Wait out the given delay, then attempt to open the device again.
    WaitThenOpen(u64),
    /// Keep reading from the open device.
    Read,
    /// Store the decoded frame in the metrics store, then keep reading.
    PublishAndRead(SensorFrame),
    /// Observe cancellation: close everything and exit the loop.
    Stop,
}

/// The acquisition loop's state between decisions.
pub struct AcquisitionController {
    /// Whether the serial device is currently open.
    pub connected: bool,
    /// Whether at least one frame was decoded since the last successful
    /// open; only then is the backoff delay reset to its initial value, so
    /// a connection that opens but yields nothing valid keeps backing off.
    pub frame_seen: bool,
    pub backoff: BackoffState,
}

impl AcquisitionController {
    /// Well-formedness of the controller state.
    pub open spec fn wf(&self) -> bool {
        self.backoff.wf()
    }

    /// A controller about to make its first open attempt, at the fixed
    /// delays the sensor deployment calls for.
    pub fn new() -> (c: AcquisitionController)
        ensures
            c.wf(),
            !c.connected,
            !c.frame_seen,
            c.backoff.current_ms == INITIAL_BACKOFF_MS,
            c.backoff.initial_ms == INITIAL_BACKOFF_MS,
            c.backoff.max_ms == MAX_BACKOFF_MS,
    {
        AcquisitionController {
            connected: false,
            frame_seen: false,
            backoff: BackoffState::new(INITIAL_BACKOFF_MS, MAX_BACKOFF_MS),
        }
    }

    /// Decides the next action from one observed event.
    ///
    /// Cancellation always stops the loop at once. A transient failure
    /// (open failure, read error, stream end) schedules a reopen after the
    /// current backoff delay and doubles the delay up to its ceiling. A
    /// successful open starts streaming without touching the delay; the
    /// delay resets to its initial value only once the first frame of that
    /// connection is decoded. Protocol anomalies change nothing and never
    /// reconnect.
    pub fn on_event(&mut self, event: AcqEvent) -> (a: AcqAction)
        requires
            old(self).wf(),
        ensures
            final(self).wf(),
            final(self).backoff.initial_ms == old(self).backoff.initial_ms,
            final(self).backoff.max_ms == old(self).backoff.max_ms,
            event is Cancelled ==> a is Stop && *final(self) == *old(self),
            event is OpenFailed || event is StreamInterrupted ==> {
                &&& a == AcqAction::WaitThenOpen(old(self).backoff.current_ms)
                &&& !final(self).connected
                &&& final(self).backoff.current_ms == old(self).backoff.doubled_ms()
            },
            event is OpenSucceeded ==> {
                &&& a is Read
                &&& final(self).connected
                &&& !final(self).frame_seen
                &&& final(self).backoff == old(self).backoff
            },
            forall|f: SensorFrame|
                event == AcqEvent::FrameDecoded(f) ==> {
                    &&& a == AcqAction::PublishAndRead(f)
                    &&& final(self).connected == old(self).connected
                    &&& final(self).frame_seen
                    &&& final(self).backoff.current_ms == if old(self).frame_seen {
                        old(self).backoff.current_ms
                    } else {
                        old(self).backoff.initial_ms
                    }
                },
            event is ProtocolAnomaly ==> a is Read && *final(self) == *old(self),
    {
        match event {
            AcqEvent::Cancelled => AcqAction::Stop,
            AcqEvent::OpenFailed | AcqEvent::StreamInterrupted => {
                let delay = self.backoff.current_ms;
                self.connected = false;
                self.frame_seen = false;
                self.backoff.current_ms = if self.backoff.current_ms <= self.backoff.max_ms / 2 {
                    self.backoff.current_ms * 2
                } else {
                    self.backoff.max_ms
                };
                AcqAction::WaitThenOpen(delay)
            },
            AcqEvent::OpenSucceeded => {
                self.connected = true;
                self.frame_seen = false;
                AcqAction::Read
            },
            AcqEvent::FrameDecoded(f) => {
                if !self.frame_seen {
                    self.backoff.current_ms = self.backoff.initial_ms;
                }
                self.frame_seen = true;
                AcqAction::PublishAndRead(f)
            },
            AcqEvent::ProtocolAnomaly => AcqAction::Read,
        }
    }

    /// Decides the next action from one codec report: a decoded frame is
    /// published, a corrupt or malformed frame is a recoverable anomaly,
    /// and an incomplete buffer just keeps reading.
    pub fn on_decode_event(&mut self, ev: DecodeEvent) -> (a: AcqAction)
        requires
            old(self).wf(),
        ensures
            final(self).wf(),
            ev is NeedMoreData ==> a is Read && *final(self) == *old(self),
            forall|f: SensorFrame|
                ev == DecodeEvent::FrameDecoded(f) ==> a == AcqAction::PublishAndRead(f)
                    && final(self).frame_seen,
            ev is ChecksumMismatch || ev is UnsupportedFrameLength ==> a is Read && *final(self)
                == *old(self),
    {
        match ev {
            DecodeEvent::NeedMoreData => AcqAction::Read,
            DecodeEvent::FrameDecoded(f) => self.on_event(AcqEvent::FrameDecoded(f)),
            DecodeEvent::ChecksumMismatch => self.on_event(AcqEvent::ProtocolAnomaly),
            DecodeEvent::UnsupportedFrameLength => self.on_event(AcqEvent::ProtocolAnomaly),
        }
    }
}

} // verus!
