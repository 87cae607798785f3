use can_fuzzer::frame::{Direction, Frame, FrameError};
use can_fuzzer::msg_format::{MsgFormat, Section};
use can_fuzzer::session::{
    after_round, fuzz_message, has_round, next_message, repeat_is_valid, select_format,
    sleeps_after_round,
};
use can_fuzzer::transmit::{create_frame_send_msg, listen};
use std::ops::Range;

const RUNS: usize = 300;

fn fixed_format(name: &str, id: u32, value: u64) -> MsgFormat {
    MsgFormat::new(
        String::from(name),
        Range { start: id, end: id + 1 },
        vec![],
        1,
        vec![Section::new(String::from("byte"), 1, vec![], true, value)],
        false,
        0,
    )
}

/// The columns behind the time: the channel, the identifier and the payload.
fn columns_behind_the_time(line: &str) -> String {
    line.chars().skip(31).collect()
}

fn looks_like_a_timestamp(stamp: &str) {
    // such as `[Wed Oct 28 00:48:00 2026]:`
    assert_eq!(stamp.chars().count(), 27, "{:?}", stamp);
    assert!(stamp.starts_with('['));
    assert!(stamp.ends_with("]:"));
    let parts: Vec<&str> = stamp[1..stamp.len() - 2].split(' ').filter(|p| !p.is_empty()).collect();
    assert_eq!(parts.len(), 5, "{:?}", stamp);
    assert!(["Mon", "Tue", "Wed", "Thu", "Fri", "Sat", "Sun"].contains(&parts[0]));
    assert!(parts[2].parse::<u8>().unwrap() <= 31);
    assert_eq!(parts[3].len(), 8);
    assert!(parts[4].parse::<u32>().unwrap() >= 2024);
}

#[test]
fn frame_and_console_line_for_one_transmission() {
    let (frame, line) = create_frame_send_msg("vcan0", 0x7B, &[1, 0x0A, 0xFF], false, false).unwrap();
    assert_eq!(frame, Frame::new(0x7B, &[1, 0x0A, 0xFF], false, false).unwrap());
    assert_eq!(line.chars().count(), 30 + 1 + 8 + 1 + 10 + 1 + 25);
    assert_eq!(columns_behind_the_time(&line), "vcan0    0x07B      01 0A FF                 ");
    looks_like_a_timestamp(line[..30].trim_end());
}

#[test]
fn transmission_is_refused_as_the_frame_is() {
    assert_eq!(
        create_frame_send_msg("vcan0", 1, &[0; 9], false, false),
        Err(FrameError::TooMuchData)
    );
    assert_eq!(
        create_frame_send_msg("vcan0", 0x2000_0000, &[0; 8], false, false),
        Err(FrameError::IdTooLarge)
    );
    assert_eq!(
        create_frame_send_msg("vcan0", u32::MAX, &[0; 20], true, true),
        Err(FrameError::TooMuchData)
    );
}

#[test]
fn transmission_keeps_the_flags() {
    let (frame, _) = create_frame_send_msg("vcan0", 0x1FFF_FFFF, &[], true, true).unwrap();
    assert!(frame.rtr);
    assert!(frame.err);
    assert!(frame.is_extended());
}

#[test]
fn listening_without_a_reply_leaves_no_record() {
    let sent = Frame::new(0x080, &[1, 2], false, false).unwrap();
    assert!(listen("vcan0", &sent, None).is_empty());
}

#[test]
fn listening_with_a_reply_leaves_tx_then_rx() {
    let sent = Frame::new(0x080, &[1, 2], false, false).unwrap();
    let heard = Frame::new(0x581, &[0x60, 0, 0x10], false, false).unwrap();
    let records = listen("vcan0", &sent, Some(&heard));
    assert_eq!(records.len(), 2);

    assert_eq!(records[0].direction, Direction::Tx);
    assert_eq!(records[0].id, 0x080);
    assert_eq!(records[0].data, vec![1, 2]);
    assert_eq!(records[0].channel, "vcan0");
    looks_like_a_timestamp(&records[0].timestamp);

    assert_eq!(records[1].direction, Direction::Rx);
    assert_eq!(records[1].id, 0x581);
    assert_eq!(records[1].data, vec![0x60, 0, 0x10]);
    assert_eq!(records[1].channel, "vcan0");
    looks_like_a_timestamp(&records[1].timestamp);

    let tx_line = records[0].line();
    assert!(tx_line.starts_with("TX  ["));
    assert!(tx_line.ends_with("vcan0    0x080      01 02                    \n"));
    let rx_line = records[1].line();
    assert!(rx_line.starts_with("RX  ["));
    assert!(rx_line.ends_with("vcan0    0x581      60 00 10                 \n"));
    assert_eq!(tx_line.chars().count(), 3 + 1 + 76 + 1);
}

#[test]
fn format_is_selected_from_the_catalog() {
    let catalog =
        vec![fixed_format("a", 1, 0xA1), fixed_format("b", 2, 0xB2), fixed_format("c", 3, 0xC3)];
    let mut seen = std::collections::BTreeSet::new();
    for _ in 0..RUNS {
        let format = select_format(&catalog).unwrap();
        assert!(catalog.contains(format));
        seen.insert(format.name.clone());
    }
    assert_eq!(seen.len(), 3);
    assert_eq!(select_format(&vec![]), None);
}

#[test]
fn message_comes_from_one_format_of_the_catalog() {
    let catalog = vec![fixed_format("a", 1, 0xA1), fixed_format("b", 2, 0xB2)];
    let mut seen = std::collections::BTreeSet::new();
    for _ in 0..RUNS {
        let (id, payload) = fuzz_message(&catalog);
        let expected = if id == 1 { 0xA1 } else { 0xB2 };
        assert!(id == 1 || id == 2);
        assert_eq!(payload, vec![expected, 0, 0, 0, 0, 0, 0, 0]);
        seen.insert(id);
    }
    assert_eq!(seen.len(), 2);
}

#[test]
fn next_message_with_a_catalog_ignores_the_message_before() {
    let catalog = Some(vec![fixed_format("a", 0x123, 0x5A)]);
    let (id, payload) = next_message(&catalog, false, false, 0x10, vec![1]);
    assert_eq!(id, 0x123);
    assert_eq!(payload, vec![0x5A, 0, 0, 0, 0, 0, 0, 0]);
    let (id, payload) = next_message(&catalog, true, true, 0x10, vec![1]);
    assert_eq!(id, 0x123);
    assert_eq!(payload, vec![0x5A, 0, 0, 0, 0, 0, 0, 0]);
}

#[test]
fn next_message_without_a_catalog_keeps_what_is_not_drawn() {
    assert_eq!(next_message(&None, false, false, 0x10, vec![1, 2]), (0x10, vec![1, 2]));
    let mut ids = std::collections::BTreeSet::new();
    let mut payloads = std::collections::BTreeSet::new();
    for _ in 0..RUNS {
        let (id, payload) = next_message(&None, true, false, 0xFFFF, vec![1, 2]);
        assert!(id < 2_021);
        assert_eq!(payload, vec![1, 2]);
        ids.insert(id);

        let (id, payload) = next_message(&None, false, true, 0xFFFF, vec![1, 2]);
        assert_eq!(id, 0xFFFF);
        assert_eq!(payload.len(), 8);
        assert!(payload.iter().all(|byte| *byte <= 254));
        payloads.insert(payload);
    }
    assert!(ids.len() > 1);
    assert!(payloads.len() > 1);
}

#[test]
fn repeat_is_a_count_or_minus_one() {
    assert!(repeat_is_valid(-1));
    assert!(repeat_is_valid(0));
    assert!(repeat_is_valid(1));
    assert!(repeat_is_valid(i64::MAX));
    assert!(!repeat_is_valid(-2));
    assert!(!repeat_is_valid(i64::MIN));
}

#[test]
fn rounds_are_counted_down_to_zero() {
    assert!(has_round(3));
    assert_eq!(after_round(3), 2);
    assert_eq!(after_round(1), 0);
    assert!(!has_round(0));
    assert_eq!(after_round(i64::MAX), i64::MAX - 1);
}

#[test]
fn rounds_without_end_stay_without_end() {
    assert!(has_round(-1));
    assert_eq!(after_round(-1), -1);
}

#[test]
fn sender_sleeps_unless_it_listens() {
    assert!(sleeps_after_round(false));
    assert!(!sleeps_after_round(true));
}
