//! Bit-banged GPIO strategy.
//!
//! Each color bit becomes one timed high/low pulse pair on the output
//! line: a settling delay, the line driven high, a high phase whose length
//! distinguishes a one from a zero, the line driven low, and for a zero a
//! trailing low phase. A frame is the colors' bytes in the order red,
//! green, blue, white, each byte most-significant bit first, closed by a
//! reset hold that makes the strip latch.
//!
//! The waveform is specified by [`write_events`] and its helpers; the
//! driver's contract says that a call to [`Sk6812::write`] issues exactly
//! those commands, and [`lemma_byte_transition_count`] shows that every
//! byte costs exactly 16 line transitions, whatever its value.

use vstd::prelude::*;

use crate::pulse::{PulseEvent, PulseLine, RecordingLine};
use crate::Rgbw;

verus! {

/// Settling delay before the high phase of every bit, in microseconds.
pub const SETTLE_US: u32 = 1;

/// High phase of a one bit, in microseconds.
pub const LONG_HIGH_US: u32 = 2;

/// High phase of a zero bit, in microseconds.
pub const SHORT_HIGH_US: u32 = 1;

/// Trailing low phase of a zero bit, in microseconds.
pub const TRAIL_LOW_US: u32 = 1;

/// Reset hold after the last byte, in microseconds.
pub const RESET_US: u32 = 90;

/// The bit of `data` at position `i`, counting from the most significant.
pub open spec fn bit_at(data: u8, i: int) -> bool
    recommends
        0 <= i < 8,
{
    (data >> ((7 - i) as u8)) & 1 == 1
}

/// The commands that transmit a single bit.
pub open spec fn bit_events(bit: bool) -> Seq<PulseEvent> {
    if bit {
        seq![
            PulseEvent::DelayUs(SETTLE_US),
            PulseEvent::SetHigh,
            PulseEvent::DelayUs(LONG_HIGH_US),
            PulseEvent::SetLow,
        ]
    } else {
        seq![
            PulseEvent::DelayUs(SETTLE_US),
            PulseEvent::SetHigh,
            PulseEvent::DelayUs(SHORT_HIGH_US),
            PulseEvent::SetLow,
            PulseEvent::DelayUs(TRAIL_LOW_US),
        ]
    }
}

/// The commands that transmit the first `n` bits of `data`,
/// most-significant bit first.
pub open spec fn byte_events_upto(data: u8, n: int) -> Seq<PulseEvent>
    decreases n,
{
    if n <= 0 {
        Seq::empty()
    } else {
        byte_events_upto(data, n - 1) + bit_events(bit_at(data, n - 1))
    }
}

/// The commands that transmit one byte, most-significant bit first.
pub open spec fn byte_events(data: u8) -> Seq<PulseEvent> {
    byte_events_upto(data, 8)
}

/// The commands that transmit one color: its red, green, blue and white
/// bytes, in that order.
pub open spec fn color_events(c: Rgbw) -> Seq<PulseEvent> {
    byte_events(c.r) + byte_events(c.g) + byte_events(c.b) + byte_events(c.w)
}

/// The commands that transmit the first `n` colors.
pub open spec fn colors_events_upto(colors: Seq<Rgbw>, n: int) -> Seq<PulseEvent>
    decreases n,
{
    if n <= 0 {
        Seq::empty()
    } else {
        colors_events_upto(colors, n - 1) + color_events(colors[n - 1])
    }
}

/// The commands of one full `write` call: every color in order, then the
/// reset hold.
pub open spec fn write_events(colors: Seq<Rgbw>) -> Seq<PulseEvent> {
    colors_events_upto(colors, colors.len() as int) + seq![PulseEvent::DelayUs(RESET_US)]
}

/// Whether a command changes the line level.
pub open spec fn is_transition(e: PulseEvent) -> bool {
    e == PulseEvent::SetHigh || e == PulseEvent::SetLow
}

/// How many commands of `s` change the line level.
pub open spec fn transition_count(s: Seq<PulseEvent>) -> nat
    decreases s.len(),
{
    if s.len() == 0 {
        0
    } else {
        transition_count(s.drop_last()) + if is_transition(s.last()) {
            1nat
        } else {
            0nat
        }
    }
}

/// Transition counting distributes over concatenation.
pub proof fn lemma_transition_count_add(a: Seq<PulseEvent>, b: Seq<PulseEvent>)
    ensures
        transition_count(a + b) == transition_count(a) + transition_count(b),
    decreases b.len(),
{
    if b.len() == 0 {
        assert(a + b =~= a);
    } else {
        lemma_transition_count_add(a, b.drop_last());
        assert((a + b).drop_last() =~= a + b.drop_last());
        assert((a + b).last() == b.last());
    }
}

/// Transmitting one bit drives the line exactly twice: once high, once
/// low, whichever value the bit has.
pub proof fn lemma_bit_transition_count(bit: bool)
    ensures
        transition_count(bit_events(bit)) == 2,
{
    reveal_with_fuel(transition_count, 6);
}

/// Transmitting the first `n` bits of a byte drives the line exactly
/// `2 * n` times.
proof fn lemma_byte_events_upto_transition_count(data: u8, n: int)
    requires
        0 <= n <= 8,
    ensures
        transition_count(byte_events_upto(data, n)) == 2 * n,
    decreases n,
{
    if n > 0 {
        lemma_byte_events_upto_transition_count(data, n - 1);
        lemma_bit_transition_count(bit_at(data, n - 1));
        lemma_transition_count_add(byte_events_upto(data, n - 1), bit_events(bit_at(data, n - 1)));
    }
}

/// Transmitting one byte drives the line exactly 16 times — two
/// transitions for each of its 8 bits — regardless of the byte's value.
/// A byte's value only selects the durations between the transitions.
pub proof fn lemma_byte_transition_count(data: u8)
    ensures
        transition_count(byte_events(data)) == 16,
{
    lemma_byte_events_upto_transition_count(data, 8);
}

/// GPIO driver: owns the output line the strip listens on.
pub struct Sk6812<Line: PulseLine> {
    /// The single-wire output the strip is connected to.
    pub line: Line,
}

impl<Line: PulseLine> Sk6812<Line> {
    /// Bind a driver to an output line.
    pub fn new(line: Line) -> (drv: Self)
        ensures
            drv.line == line,
    {
        Sk6812 { line }
    }

    /// Transmit one byte, most-significant bit first.
    fn write_byte(&mut self, data: u8)
        ensures
            final(self).line.transcript() == old(self).line.transcript() + byte_events(data),
    {
        let ghost t0 = self.line.transcript();
        let mut i: u8 = 0;
        while i < 8
            invariant
                i <= 8,
                self.line.transcript() == t0 + byte_events_upto(data, i as int),
            decreases 8 - i,
        {
            let shift: u8 = 7 - i;
            if (data >> shift) & 1 == 1 {
                self.line.delay_us(SETTLE_US);
                self.line.set_high();
                self.line.delay_us(LONG_HIGH_US);
                self.line.set_low();
            } else {
                self.line.delay_us(SETTLE_US);
                self.line.set_high();
                self.line.delay_us(SHORT_HIGH_US);
                self.line.set_low();
                self.line.delay_us(TRAIL_LOW_US);
            }
            proof {
                assert(self.line.transcript() =~= t0 + byte_events_upto(data, i + 1));
            }
            i = i + 1;
        }
    }

    /// Transmit the colors in order — red, green, blue, white bytes for
    /// each — and close the frame with the reset hold. The call issues
    /// exactly the commands of [`write_events`] and nothing else.
    pub fn write(&mut self, colors: &Vec<Rgbw>)
        ensures
            final(self).line.transcript() == old(self).line.transcript() + write_events(
                colors@,
            ),
    {
        let ghost t0 = self.line.transcript();
        let n = colors.len();
        let mut i: usize = 0;
        while i < n
            invariant
                i <= n,
                n == colors@.len(),
                self.line.transcript() == t0 + colors_events_upto(colors@, i as int),
            decreases n - i,
        {
            let c = colors[i];
            self.write_byte(c.r);
            self.write_byte(c.g);
            self.write_byte(c.b);
            self.write_byte(c.w);
            proof {
                assert(self.line.transcript() =~= t0 + colors_events_upto(colors@, i + 1));
            }
            i = i + 1;
        }
        self.line.delay_us(RESET_US);
        proof {
            assert(self.line.transcript() =~= t0 + write_events(colors@));
        }
    }
}

/// Compute the commands a [`Sk6812::write`] call would issue, without a
/// line at hand. A caller whose delay or pin operations suspend the task
/// can replay the returned commands one by one.
pub fn frame_pulse_events(colors: &Vec<Rgbw>) -> (events: Vec<PulseEvent>)
    ensures
        events@ == write_events(colors@),
{
    let mut drv = Sk6812::new(RecordingLine::new());
    drv.write(colors);
    drv.line.events
}

} // verus!
