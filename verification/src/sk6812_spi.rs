//! Serial pattern strategy.
//!
//! At a serial clock near 3.8MHz, one byte on the bus spans about the
//! time the one-wire protocol grants two color bits, so every two bits of
//! a channel byte are expanded into one fixed pattern byte whose duty
//! cycle the strip samples as those two bits. A frame of colors becomes
//! one contiguous payload of `16` pattern bytes per LED (4 channels of 4
//! pattern bytes, in the order red, green, blue, white), transmitted in a
//! single bus write so that no inter-byte gap can be mistaken for a
//! reset; a second, all-zero payload then holds the line low long enough
//! (over 300µs at that clock) to latch the frame.
//!
//! [`frame_encoding`] specifies the payload; [`Sk6812Spi::write`]'s
//! contract pins every completed bus operation of a call, on success and
//! on each failure alike. The pattern table and the clock rate are
//! derived together: changing one without the other garbles the strip's
//! colors silently, so the table lives here as a spec that the proofs and
//! the tests hold the encoder to.

use vstd::arithmetic::div_mod::{
    lemma_div_is_ordered,
    lemma_fundamental_div_mod,
    lemma_fundamental_div_mod_converse,
};
use vstd::prelude::*;

use crate::serial::{BusEvent, RecordingBus, SerialBus};
use crate::Rgbw;

verus! {

/// Pattern bytes per LED: 4 channels, each expanded to 4 pattern bytes.
pub const BYTES_PER_LED: usize = 16;

/// Length of the all-zero reset payload. At a 3.8MHz serial clock, 140
/// low bytes hold the line low for over 300µs, which the strip reads as
/// the end of the frame.
pub const RESET_BYTES: usize = 140;

/// The pattern table: the serial byte that stands for a 2-bit group.
/// Within a pattern byte, each nibble carries one color bit — `0b1000`
/// for a zero and `0b1110` for a one — so the four entries cover the four
/// 2-bit groups.
pub open spec fn spec_pattern(v: u8) -> u8
    recommends
        v < 4,
{
    if v == 0 {
        0x88
    } else if v == 1 {
        0x8e
    } else if v == 2 {
        0xe8
    } else {
        0xee
    }
}

/// Look a 2-bit group up in the pattern table.
pub fn pattern_for(v: u8) -> (p: u8)
    requires
        v < 4,
    ensures
        p == spec_pattern(v),
{
    if v == 0 {
        0x88
    } else if v == 1 {
        0x8e
    } else if v == 2 {
        0xe8
    } else {
        0xee
    }
}

/// No two 2-bit groups share a pattern byte: every entry of the table
/// differs from every other, so the strip can tell the four waveforms
/// apart.
pub proof fn lemma_patterns_distinct()
    ensures
        forall|u: u8, v: u8|
            u < 4 && v < 4 && u != v ==> #[trigger] spec_pattern(u) != #[trigger] spec_pattern(v),
{
}

/// The 2-bit group of `data` at position `p`, counting groups from the
/// most significant pair down.
pub open spec fn two_bits_at(data: u8, p: int) -> u8
    recommends
        0 <= p < 4,
{
    (data >> ((6 - 2 * p) as u8)) & 3
}

/// The channel byte of a color: 0 is red, 1 green, 2 blue, 3 white.
pub open spec fn channel_byte(c: Rgbw, ch: int) -> u8
    recommends
        0 <= ch < 4,
{
    if ch == 0 {
        c.r
    } else if ch == 1 {
        c.g
    } else if ch == 2 {
        c.b
    } else {
        c.w
    }
}

/// The byte at position `i` of an encoded frame: position `i` belongs to
/// LED `i / 16`, channel `(i % 16) / 4` of that LED, and pair `i % 4` of
/// that channel. A position whose LED has no color supplied is zero.
pub open spec fn frame_byte(colors: Seq<Rgbw>, i: int) -> u8 {
    let led = i / 16;
    let ch = (i % 16) / 4;
    let p = i % 4;
    if led < colors.len() {
        spec_pattern(two_bits_at(channel_byte(colors[led], ch), p))
    } else {
        0
    }
}

/// The data payload of one frame: `len` bytes, each given by
/// [`frame_byte`].
pub open spec fn frame_encoding(colors: Seq<Rgbw>, len: nat) -> Seq<u8> {
    Seq::new(len, |i: int| frame_byte(colors, i))
}

/// The all-zero reset payload.
pub open spec fn reset_payload() -> Seq<u8> {
    Seq::new(RESET_BYTES as nat, |i: int| 0u8)
}

/// The bus operations of one successful `write` call on a driver whose
/// buffer holds `len` bytes: the data payload, the reset payload, one
/// flush — and nothing else.
pub open spec fn write_events(colors: Seq<Rgbw>, len: nat) -> Seq<BusEvent> {
    seq![
        BusEvent::Write(frame_encoding(colors, len)),
        BusEvent::Write(reset_payload()),
        BusEvent::Flush,
    ]
}

/// What a `write` call transmits depends on the colors and the buffer
/// capacity alone: whatever two buses carried before, the operations a
/// successful `write` adds are identical. In particular, encoding the
/// same color sequence twice, each time with a freshly constructed
/// driver, puts byte-identical payloads on both buses.
pub proof fn lemma_write_deterministic(
    before1: Seq<BusEvent>,
    before2: Seq<BusEvent>,
    colors: Seq<Rgbw>,
    len: nat,
)
    ensures
        (before1 + write_events(colors, len)).skip(before1.len() as int) == (before2
            + write_events(colors, len)).skip(before2.len() as int),
{
    assert((before1 + write_events(colors, len)).skip(before1.len() as int) =~= write_events(
        colors,
        len,
    ));
    assert((before2 + write_events(colors, len)).skip(before2.len() as int) =~= write_events(
        colors,
        len,
    ));
}

/// Every position in the span of an LED whose color is all-zero encodes
/// as the pattern table's entry for zero.
pub proof fn lemma_zero_color_pattern(colors: Seq<Rgbw>, led: int, i: int)
    requires
        0 <= led < colors.len(),
        colors[led] == (Rgbw { r: 0, g: 0, b: 0, w: 0 }),
        led * 16 <= i < led * 16 + 16,
    ensures
        frame_byte(colors, i) == spec_pattern(0),
{
    lemma_fundamental_div_mod_converse(i, 16, led, i - led * 16);
    assert(forall|s: u8| ((0u8 >> s) & 3) == 0) by (bit_vector);
}

/// How a failed `write` call ended.
#[derive(Clone, Copy, PartialEq, Eq, Structural, Debug)]
pub enum Error {
    /// The bus refused the data payload; nothing was transmitted.
    DataWrite,
    /// The bus refused the reset payload; the data payload alone was
    /// transmitted and the strip will not latch it.
    ResetWrite,
    /// The final flush failed after both payloads were accepted.
    Flush,
}

/// Serial driver: owns the bus and a frame buffer of 16 bytes per LED,
/// sized once at construction and reused by every `write` call, so
/// encoding a frame allocates nothing.
pub struct Sk6812Spi<Bus: SerialBus> {
    /// The write-only bus the strip listens on.
    pub spi: Bus,
    /// The frame buffer; always 16 bytes per LED slot.
    pub spi_buffer: Vec<u8>,
}

impl<Bus: SerialBus> Sk6812Spi<Bus> {
    /// The buffer length is a whole number of 16-byte LED slots.
    pub open spec fn wf(&self) -> bool {
        self.spi_buffer@.len() % 16 == 0
    }

    /// Bind a driver to a bus, with a zeroed frame buffer for `num_leds`
    /// LEDs.
    pub fn new(spi: Bus, num_leds: usize) -> (drv: Self)
        requires
            num_leds <= usize::MAX / BYTES_PER_LED,
        ensures
            drv.wf(),
            drv.spi == spi,
            drv.spi_buffer@ == Seq::new((num_leds * 16) as nat, |i: int| 0u8),
    {
        let len = num_leds * BYTES_PER_LED;
        let mut spi_buffer: Vec<u8> = Vec::new();
        let mut i: usize = 0;
        while i < len
            invariant
                i <= len,
                spi_buffer@ == Seq::new(i as nat, |j: int| 0u8),
            decreases len - i,
        {
            spi_buffer.push(0);
            proof {
                assert(spi_buffer@ =~= Seq::new((i + 1) as nat, |j: int| 0u8));
            }
            i = i + 1;
        }
        Sk6812Spi { spi, spi_buffer }
    }

    /// Encode the colors into the frame buffer — 16 pattern bytes per
    /// LED, zeroes in every slot left over when the colors run out — then
    /// transmit the buffer, the reset payload, and a flush. The contract
    /// names the exact bus operations completed for every outcome;
    /// trailing slots are zeroed rather than left stale, so a frame never
    /// carries a previous call's patterns.
    pub fn write(&mut self, colors: &Vec<Rgbw>) -> (r: Result<(), Error>)
        requires
            old(self).wf(),
        ensures
            final(self).wf(),
            final(self).spi_buffer@ == frame_encoding(
                colors@,
                old(self).spi_buffer@.len() as nat,
            ),
            ({
                let t0 = old(self).spi.transcript();
                let frame = frame_encoding(colors@, old(self).spi_buffer@.len() as nat);
                match r {
                    Ok(()) => final(self).spi.transcript() == t0 + write_events(
                        colors@,
                        old(self).spi_buffer@.len() as nat,
                    ),
                    Err(Error::DataWrite) => final(self).spi.transcript() == t0,
                    Err(Error::ResetWrite) => final(self).spi.transcript() == t0.push(
                        BusEvent::Write(frame),
                    ),
                    Err(Error::Flush) => final(self).spi.transcript() == t0.push(
                        BusEvent::Write(frame),
                    ).push(BusEvent::Write(reset_payload())),
                }
            }),
    {
        self.encode(colors);
        match SerialBus::write_bytes(&mut self.spi, &self.spi_buffer) {
            Err(_) => {
                return Err(Error::DataWrite);
            },
            Ok(()) => {},
        }
        match self.flush() {
            Err(e) => {
                return Err(e);
            },
            Ok(()) => {},
        }
        proof {
            assert(self.spi.transcript() =~= old(self).spi.transcript() + write_events(
                colors@,
                old(self).spi_buffer@.len() as nat,
            ));
        }
        Ok(())
    }

    /// Fill the frame buffer with the colors' pattern bytes; slots beyond
    /// the colors, and nothing else, are zero.
    fn encode(&mut self, colors: &Vec<Rgbw>)
        requires
            old(self).wf(),
        ensures
            final(self).wf(),
            final(self).spi == old(self).spi,
            final(self).spi_buffer@ == frame_encoding(
                colors@,
                old(self).spi_buffer@.len() as nat,
            ),
    {
        let len = self.spi_buffer.len();
        let slots = len / 16;
        proof {
            lemma_fundamental_div_mod(len as int, 16);
        }
        let mut i: usize = 0;
        while i < len
            invariant
                i <= len,
                self.spi_buffer@.len() == len,
                self.spi == old(self).spi,
                forall|j: int| 0 <= j < i ==> self.spi_buffer@[j] == 0,
            decreases len - i,
        {
            self.spi_buffer.set(i, 0);
            i = i + 1;
        }
        let n = if colors.len() < slots {
            colors.len()
        } else {
            slots
        };
        let mut led: usize = 0;
        while led < n
            invariant
                led <= n,
                n <= slots,
                n <= colors@.len(),
                len == slots * 16,
                self.spi_buffer@.len() == len,
                self.spi == old(self).spi,
                forall|j: int| 0 <= j < led * 16 ==> self.spi_buffer@[j] == frame_byte(colors@, j),
                forall|j: int| led * 16 <= j < len ==> self.spi_buffer@[j] == 0,
            decreases n - led,
        {
            let c = colors[led];
            let mut ch: usize = 0;
            while ch < 4
                invariant
                    ch <= 4,
                    led < n,
                    n <= slots,
                    n <= colors@.len(),
                    len == slots * 16,
                    self.spi_buffer@.len() == len,
                    self.spi == old(self).spi,
                    c == colors@[led as int],
                    forall|j: int|
                        0 <= j < led * 16 + ch * 4 ==> self.spi_buffer@[j] == frame_byte(
                            colors@,
                            j,
                        ),
                    forall|j: int| led * 16 + ch * 4 <= j < len ==> self.spi_buffer@[j] == 0,
                decreases 4 - ch,
            {
                let byte = if ch == 0 {
                    c.r
                } else if ch == 1 {
                    c.g
                } else if ch == 2 {
                    c.b
                } else {
                    c.w
                };
                let mut pair: usize = 0;
                while pair < 4
                    invariant
                        pair <= 4,
                        ch < 4,
                        led < n,
                        n <= slots,
                        n <= colors@.len(),
                        len == slots * 16,
                        self.spi_buffer@.len() == len,
                        self.spi == old(self).spi,
                        c == colors@[led as int],
                        byte == channel_byte(colors@[led as int], ch as int),
                        forall|j: int|
                            0 <= j < led * 16 + ch * 4 + pair ==> self.spi_buffer@[j] == frame_byte(
                                colors@,
                                j,
                            ),
                        forall|j: int|
                            led * 16 + ch * 4 + pair <= j < len ==> self.spi_buffer@[j] == 0,
                    decreases 4 - pair,
                {
                    let shift: u8 = 6 - 2 * (pair as u8);
                    assert(((byte >> shift) & 3) < 4) by (bit_vector);
                    let two = (byte >> shift) & 3;
                    let pos = led * 16 + ch * 4 + pair;
                    proof {
                        lemma_slot_position(led as int, ch as int, pair as int);
                        assert(pos < len) by {
                            assert(led * 16 + 16 <= slots * 16) by (nonlinear_arith)
                                requires
                                    led < slots,
                            ;
                        }
                    }
                    self.spi_buffer.set(pos, pattern_for(two));
                    proof {
                        assert(self.spi_buffer@[pos as int] == frame_byte(colors@, pos as int));
                    }
                    pair = pair + 1;
                }
                ch = ch + 1;
            }
            led = led + 1;
        }
        proof {
            assert forall|j: int| n * 16 <= j < len implies frame_byte(colors@, j) == 0 by {
                lemma_div_is_ordered(n * 16, j, 16);
                lemma_fundamental_div_mod_converse(n * 16, 16, n as int, 0);
                assert(n == slots ==> !(n * 16 <= j < len));
            }
            assert(self.spi_buffer@ =~= frame_encoding(colors@, len as nat));
        }
    }

    /// Send the reset payload and flush the bus, surfacing which of the
    /// two failed.
    fn flush(&mut self) -> (r: Result<(), Error>)
        ensures
            final(self).spi_buffer == old(self).spi_buffer,
            match r {
                Ok(()) => final(self).spi.transcript() == old(self).spi.transcript().push(
                    BusEvent::Write(reset_payload()),
                ).push(BusEvent::Flush),
                Err(Error::ResetWrite) => final(self).spi.transcript() == old(
                    self,
                ).spi.transcript(),
                Err(Error::Flush) => final(self).spi.transcript() == old(
                    self,
                ).spi.transcript().push(BusEvent::Write(reset_payload())),
                Err(Error::DataWrite) => false,
            },
    {
        let mut zero: Vec<u8> = Vec::new();
        let mut k: usize = 0;
        while k < RESET_BYTES
            invariant
                k <= RESET_BYTES,
                zero@ == Seq::new(k as nat, |i: int| 0u8),
            decreases RESET_BYTES - k,
        {
            zero.push(0);
            proof {
                assert(zero@ =~= Seq::new((k + 1) as nat, |i: int| 0u8));
            }
            k = k + 1;
        }
        match SerialBus::write_bytes(&mut self.spi, &zero) {
            Err(_) => {
                return Err(Error::ResetWrite);
            },
            Ok(()) => {},
        }
        match SerialBus::flush(&mut self.spi) {
            Err(_) => {
                return Err(Error::Flush);
            },
            Ok(()) => {},
        }
        Ok(())
    }
}

/// Compute the data payload that a driver with `num_leds` slots
/// transmits for these colors, without a bus at hand. A caller whose bus
/// writes suspend the task can transmit the returned bytes, the reset
/// payload and a flush itself.
pub fn encode_frame(colors: &Vec<Rgbw>, num_leds: usize) -> (frame: Vec<u8>)
    requires
        num_leds <= usize::MAX / BYTES_PER_LED,
    ensures
        frame@ == frame_encoding(colors@, (num_leds * 16) as nat),
{
    let mut drv = Sk6812Spi::new(RecordingBus::new(), num_leds);
    drv.encode(colors);
    drv.spi_buffer
}

/// Position arithmetic of the frame layout: the byte at
/// `led * 16 + ch * 4 + p` belongs to LED `led`, channel `ch`, pair `p`.
proof fn lemma_slot_position(led: int, ch: int, p: int)
    requires
        0 <= led,
        0 <= ch < 4,
        0 <= p < 4,
    ensures
        (led * 16 + ch * 4 + p) / 16 == led,
        ((led * 16 + ch * 4 + p) % 16) / 4 == ch,
        (led * 16 + ch * 4 + p) % 4 == p,
{
    let pos = led * 16 + ch * 4 + p;
    lemma_fundamental_div_mod_converse(pos, 16, led, ch * 4 + p);
    lemma_fundamental_div_mod_converse(ch * 4 + p, 4, ch, p);
    lemma_fundamental_div_mod_converse(pos, 4, led * 4 + ch, p);
}

} // verus!
