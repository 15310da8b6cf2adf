//! The abstract pulse capability of the bit-banged strategy.
//!
//! The GPIO encoder does not talk to hardware directly: it is written
//! against [`PulseLine`], a capability with the three operations the
//! one-wire protocol needs — drive the line high, drive it low, and hold
//! the current level for a number of microseconds. A [`PulseLine`] keeps a
//! ghost transcript of every command issued to it, so the encoder's
//! contract can pin down the exact waveform it requests. [`RecordingLine`]
//! is a concrete, verified implementation that stores the transcript as an
//! ordinary vector, for inspection by tests and for computing a waveform
//! ahead of time.

use vstd::prelude::*;

verus! {

/// One command issued to the output line.
#[derive(Clone, Copy, PartialEq, Eq, Structural, Debug)]
pub enum PulseEvent {
    /// Drive the line high.
    SetHigh,
    /// Drive the line low.
    SetLow,
    /// Hold the current level for the given number of microseconds.
    DelayUs(u32),
}

/// A single-wire output with microsecond-grained timing.
///
/// The transcript records the commands issued, in order. Driving the line
/// is best effort: a stuck pin is a hardware fault that this layer can
/// neither observe nor repair, so the operations are infallible here and
/// an implementation discards low-level pin errors.
pub trait PulseLine {
    /// The commands issued to this line so far, in order. The default is
    /// an unspecified sequence; an implementation overrides it with its
    /// own record.
    open spec fn transcript(&self) -> Seq<PulseEvent> {
        vstd::pervasive::arbitrary()
    }

    /// Drive the line high.
    fn set_high(&mut self)
        ensures
            final(self).transcript() == old(self).transcript().push(PulseEvent::SetHigh),
    ;

    /// Drive the line low.
    fn set_low(&mut self)
        ensures
            final(self).transcript() == old(self).transcript().push(PulseEvent::SetLow),
    ;

    /// Hold the current level for `us` microseconds.
    fn delay_us(&mut self, us: u32)
        ensures
            final(self).transcript() == old(self).transcript().push(PulseEvent::DelayUs(us)),
    ;
}

/// A [`PulseLine`] that performs nothing and records every command.
pub struct RecordingLine {
    /// The recorded commands, oldest first.
    pub events: Vec<PulseEvent>,
}

impl RecordingLine {
    /// A fresh line with an empty transcript.
    pub fn new() -> (line: RecordingLine)
        ensures
            line.events@ == Seq::<PulseEvent>::empty(),
    {
        RecordingLine { events: Vec::new() }
    }
}

impl PulseLine for RecordingLine {
    open spec fn transcript(&self) -> Seq<PulseEvent> {
        self.events@
    }

    fn set_high(&mut self) {
        self.events.push(PulseEvent::SetHigh);
    }

    fn set_low(&mut self) {
        self.events.push(PulseEvent::SetLow);
    }

    fn delay_us(&mut self, us: u32) {
        self.events.push(PulseEvent::DelayUs(us));
    }
}

} // verus!
