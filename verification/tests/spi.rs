use sk6812::new_rgbw;
use sk6812::serial::{FailingBus, RecordedOp, RecordingBus};
use sk6812::sk6812_spi::{encode_frame, pattern_for, Error, Sk6812Spi};

/// The pattern table entry for each 2-bit group of `byte`, most
/// significant pair first.
fn expand(byte: u8) -> Vec<u8> {
    vec![
        pattern_for((byte >> 6) & 3),
        pattern_for((byte >> 4) & 3),
        pattern_for((byte >> 2) & 3),
        pattern_for(byte & 3),
    ]
}

#[test]
fn led_all_off() {
    let spi = RecordingBus::new();
    let mut led: Sk6812Spi<_> = Sk6812Spi::new(spi, 1);

    let colors = vec![new_rgbw(0, 0, 0, 0)];

    led.write(&colors).expect("Write to led");

    assert_eq!(
        led.spi.ops,
        vec![
            RecordedOp::Write(vec![0b1000_1000; 16]),
            RecordedOp::Write(vec![0_u8; 140]),
            RecordedOp::Flush,
        ]
    );
}

#[test]
fn pattern_table_entries() {
    assert_eq!(pattern_for(0), 0b1000_1000);
    assert_eq!(pattern_for(1), 0b1000_1110);
    assert_eq!(pattern_for(2), 0b1110_1000);
    assert_eq!(pattern_for(3), 0b1110_1110);
    let entries = [pattern_for(0), pattern_for(1), pattern_for(2), pattern_for(3)];
    for i in 0..4 {
        for j in 0..4 {
            if i != j {
                assert_ne!(entries[i], entries[j]);
            }
        }
    }
}

#[test]
fn mixed_byte_expansion() {
    let spi = RecordingBus::new();
    let mut led: Sk6812Spi<_> = Sk6812Spi::new(spi, 1);

    let colors = vec![new_rgbw(0x1b, 0x00, 0xff, 0x6c)];
    led.write(&colors).expect("Write to led");

    let mut frame = Vec::new();
    frame.extend(expand(0x1b)); // 00 01 10 11
    frame.extend(expand(0x00));
    frame.extend(expand(0xff));
    frame.extend(expand(0x6c)); // 01 10 11 00
    assert_eq!(
        frame,
        vec![
            0x88, 0x8e, 0xe8, 0xee, // red
            0x88, 0x88, 0x88, 0x88, // green
            0xee, 0xee, 0xee, 0xee, // blue
            0x8e, 0xe8, 0xee, 0x88, // white
        ]
    );
    assert_eq!(led.spi.ops[0], RecordedOp::Write(frame));
}

#[test]
fn frame_and_reset_payload_sizes() {
    let spi = RecordingBus::new();
    let mut led: Sk6812Spi<_> = Sk6812Spi::new(spi, 3);

    let colors = vec![new_rgbw(1, 2, 3, 4), new_rgbw(5, 6, 7, 8), new_rgbw(9, 10, 11, 12)];
    led.write(&colors).expect("Write to led");

    assert_eq!(led.spi.ops.len(), 3);
    match &led.spi.ops[0] {
        RecordedOp::Write(data) => assert_eq!(data.len(), 48),
        other => panic!("expected a data payload, got {:?}", other),
    }
    match &led.spi.ops[1] {
        RecordedOp::Write(data) => {
            assert_eq!(data.len(), 140);
            assert!(data.iter().all(|&b| b == 0));
        }
        other => panic!("expected the reset payload, got {:?}", other),
    }
    assert_eq!(led.spi.ops[2], RecordedOp::Flush);
}

#[test]
fn missing_colors_leave_zeroed_slots() {
    let spi = RecordingBus::new();
    let mut led: Sk6812Spi<_> = Sk6812Spi::new(spi, 2);

    let colors = vec![new_rgbw(0xff, 0xff, 0xff, 0xff)];
    led.write(&colors).expect("Write to led");

    let mut frame = vec![0xee_u8; 16];
    frame.extend(vec![0_u8; 16]);
    assert_eq!(led.spi.ops[0], RecordedOp::Write(frame));
}

#[test]
fn second_write_overwrites_previous_frame() {
    let spi = RecordingBus::new();
    let mut led: Sk6812Spi<_> = Sk6812Spi::new(spi, 2);

    let colors = vec![new_rgbw(0xff, 0xff, 0xff, 0xff), new_rgbw(0xff, 0xff, 0xff, 0xff)];
    led.write(&colors).expect("Write to led");
    let one = vec![new_rgbw(0, 0, 0, 0)];
    led.write(&one).expect("Write to led");

    let mut frame = vec![0x88_u8; 16];
    frame.extend(vec![0_u8; 16]);
    assert_eq!(led.spi.ops[3], RecordedOp::Write(frame));
}

#[test]
fn excess_colors_are_dropped() {
    let spi = RecordingBus::new();
    let mut led: Sk6812Spi<_> = Sk6812Spi::new(spi, 1);

    let colors = vec![new_rgbw(0, 0, 0, 0), new_rgbw(0xff, 0xff, 0xff, 0xff)];
    led.write(&colors).expect("Write to led");

    assert_eq!(led.spi.ops[0], RecordedOp::Write(vec![0x88_u8; 16]));
}

#[test]
fn identical_writes_transmit_identical_payloads() {
    let colors = vec![new_rgbw(12, 34, 56, 78), new_rgbw(90, 0xab, 0xcd, 0xef)];

    let mut first: Sk6812Spi<_> = Sk6812Spi::new(RecordingBus::new(), 2);
    first.write(&colors).expect("Write to led");

    let mut second: Sk6812Spi<_> = Sk6812Spi::new(RecordingBus::new(), 2);
    second.write(&colors).expect("Write to led");

    assert_eq!(first.spi.ops, second.spi.ops);
}

#[test]
fn encode_frame_matches_driver_payload() {
    let colors = vec![new_rgbw(0x42, 0x00, 0xff, 0x17)];
    let frame = encode_frame(&colors, 2);

    let mut led: Sk6812Spi<_> = Sk6812Spi::new(RecordingBus::new(), 2);
    led.write(&colors).expect("Write to led");

    assert_eq!(led.spi.ops[0], RecordedOp::Write(frame));
}

#[test]
fn data_write_failure_transmits_nothing() {
    let spi = FailingBus::new(0);
    let mut led: Sk6812Spi<_> = Sk6812Spi::new(spi, 1);

    let colors = vec![new_rgbw(1, 2, 3, 4)];
    let r = led.write(&colors);

    assert_eq!(r, Err(Error::DataWrite));
    assert_eq!(led.spi.ops.len(), 0);
}

#[test]
fn reset_write_failure_leaves_frame_unlatched() {
    let spi = FailingBus::new(1);
    let mut led: Sk6812Spi<_> = Sk6812Spi::new(spi, 1);

    let colors = vec![new_rgbw(1, 2, 3, 4)];
    let r = led.write(&colors);

    assert_eq!(r, Err(Error::ResetWrite));
    assert_eq!(led.spi.ops.len(), 1);
}

#[test]
fn flush_failure_follows_both_payloads() {
    let spi = FailingBus::new(2);
    let mut led: Sk6812Spi<_> = Sk6812Spi::new(spi, 1);

    let colors = vec![new_rgbw(1, 2, 3, 4)];
    let r = led.write(&colors);

    assert_eq!(r, Err(Error::Flush));
    assert_eq!(led.spi.ops.len(), 2);
    assert_eq!(led.spi.ops[1], RecordedOp::Write(vec![0_u8; 140]));
}

#[test]
fn failing_bus_with_budget_succeeds() {
    let spi = FailingBus::new(3);
    let mut led: Sk6812Spi<_> = Sk6812Spi::new(spi, 1);

    let colors = vec![new_rgbw(1, 2, 3, 4)];
    led.write(&colors).expect("Write to led");

    assert_eq!(led.spi.ops.len(), 3);
}
