use sk6812::new_rgbw;
use sk6812::pulse::{PulseEvent, RecordingLine};
use sk6812::sk6812_gpio::{frame_pulse_events, Sk6812};

/// The pulse pair of a one bit: settle, high for the long duration, low.
fn one_bit() -> Vec<PulseEvent> {
    vec![
        PulseEvent::DelayUs(1),
        PulseEvent::SetHigh,
        PulseEvent::DelayUs(2),
        PulseEvent::SetLow,
    ]
}

/// The pulse pair of a zero bit: settle, high for the short duration,
/// low for the remaining short duration.
fn zero_bit() -> Vec<PulseEvent> {
    vec![
        PulseEvent::DelayUs(1),
        PulseEvent::SetHigh,
        PulseEvent::DelayUs(1),
        PulseEvent::SetLow,
        PulseEvent::DelayUs(1),
    ]
}

/// The pulse events of one byte, most significant bit first.
fn byte_waveform(byte: u8) -> Vec<PulseEvent> {
    let mut events = Vec::new();
    for i in 0..8 {
        if (byte >> (7 - i)) & 1 == 1 {
            events.extend(one_bit());
        } else {
            events.extend(zero_bit());
        }
    }
    events
}

fn transitions(events: &[PulseEvent]) -> usize {
    events
        .iter()
        .filter(|e| matches!(e, PulseEvent::SetHigh | PulseEvent::SetLow))
        .count()
}

#[test]
fn all_off_color_waveform() {
    let mut led = Sk6812::new(RecordingLine::new());
    let colors = vec![new_rgbw(0, 0, 0, 0)];
    led.write(&colors);

    let mut expected = Vec::new();
    for _ in 0..4 {
        expected.extend(byte_waveform(0));
    }
    expected.push(PulseEvent::DelayUs(90));
    assert_eq!(led.line.events, expected);
}

#[test]
fn mixed_color_waveform() {
    let mut led = Sk6812::new(RecordingLine::new());
    let colors = vec![new_rgbw(0xa7, 0x00, 0xff, 0x31)];
    led.write(&colors);

    let mut expected = Vec::new();
    expected.extend(byte_waveform(0xa7));
    expected.extend(byte_waveform(0x00));
    expected.extend(byte_waveform(0xff));
    expected.extend(byte_waveform(0x31));
    expected.push(PulseEvent::DelayUs(90));
    assert_eq!(led.line.events, expected);
}

#[test]
fn sixteen_transitions_per_byte() {
    // Whatever the byte values, a byte always costs 16 transitions:
    // 2 per bit, 8 bits. One color is 4 bytes, so 64 transitions.
    for color in [
        new_rgbw(0, 0, 0, 0),
        new_rgbw(0xff, 0xff, 0xff, 0xff),
        new_rgbw(0x12, 0x34, 0x56, 0x78),
    ] {
        let mut led = Sk6812::new(RecordingLine::new());
        led.write(&vec![color]);
        assert_eq!(transitions(&led.line.events), 64);
    }
}

#[test]
fn transition_count_scales_with_colors() {
    let mut led = Sk6812::new(RecordingLine::new());
    let colors = vec![new_rgbw(1, 2, 3, 4), new_rgbw(5, 6, 7, 8)];
    led.write(&colors);
    assert_eq!(transitions(&led.line.events), 128);
}

#[test]
fn reset_hold_ends_frame() {
    let mut led = Sk6812::new(RecordingLine::new());
    let colors = vec![new_rgbw(0xde, 0xad, 0xbe, 0xef)];
    led.write(&colors);
    assert_eq!(led.line.events.last(), Some(&PulseEvent::DelayUs(90)));
}

#[test]
fn empty_frame_is_only_the_reset_hold() {
    let mut led = Sk6812::new(RecordingLine::new());
    led.write(&Vec::new());
    assert_eq!(led.line.events, vec![PulseEvent::DelayUs(90)]);
}

#[test]
fn frame_pulse_events_matches_driver() {
    let colors = vec![new_rgbw(0x0f, 0xf0, 0x55, 0xaa)];
    let events = frame_pulse_events(&colors);

    let mut led = Sk6812::new(RecordingLine::new());
    led.write(&colors);
    assert_eq!(events, led.line.events);
}

#[test]
fn identical_writes_issue_identical_waveforms() {
    let colors = vec![new_rgbw(3, 14, 15, 92), new_rgbw(65, 35, 89, 79)];

    let mut first = Sk6812::new(RecordingLine::new());
    first.write(&colors);

    let mut second = Sk6812::new(RecordingLine::new());
    second.write(&colors);

    assert_eq!(first.line.events, second.line.events);
}

#[test]
fn new_rgbw_channels() {
    let c = new_rgbw(10, 20, 30, 40);
    assert_eq!(c.r, 10);
    assert_eq!(c.g, 20);
    assert_eq!(c.b, 30);
    assert_eq!(c.w, 40);
}
