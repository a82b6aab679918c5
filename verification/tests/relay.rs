use termhost::relay::{
    keys_handed_over, read_stdin, Pump, PumpAction, PumpEvent, StdinAction, StdinRead, PUMP_BUFFER_SIZE,
};
use termhost::utf8_prefix::complete_utf8_prefix;

#[test]
fn keys_go_before_output() {
    let mut pump = Pump::new();
    assert_eq!(pump.next(PumpEvent::Resumed), PumpAction::PollKeys);
    assert_eq!(pump.next(PumpEvent::Keys(b"ls\r".to_vec())), PumpAction::Send(b"ls\r".to_vec()));
    assert_eq!(pump.next(PumpEvent::KeysSent), PumpAction::PollKeys);
    assert_eq!(pump.next(PumpEvent::NoKeys), PumpAction::Peek);
    assert_eq!(pump.next(PumpEvent::Peeked(Some(0))), PumpAction::Sleep);
    assert_eq!(pump.next(PumpEvent::Resumed), PumpAction::PollKeys);
}

#[test]
fn output_is_read_only_when_there_is_some() {
    let mut pump = Pump::new();
    assert_eq!(pump.next(PumpEvent::Peeked(Some(5))), PumpAction::Read { room: PUMP_BUFFER_SIZE });
    assert_eq!(pump.next(PumpEvent::Read(b"hello".to_vec())), PumpAction::Show(b"hello".to_vec()));
}

#[test]
fn a_closed_keyboard_drains_the_pipe() {
    let mut pump = Pump::new();
    assert_eq!(pump.next(PumpEvent::KeysClosed), PumpAction::Peek);
    assert_eq!(pump.next(PumpEvent::Peeked(Some(1))), PumpAction::Read { room: 8192 });
    assert_eq!(pump.next(PumpEvent::Read(b"x".to_vec())), PumpAction::Show(b"x".to_vec()));
    assert_eq!(pump.next(PumpEvent::Resumed), PumpAction::Peek);
    assert_eq!(pump.next(PumpEvent::Peeked(Some(0))), PumpAction::Finish { flush: true });
}

#[test]
fn a_closed_pipe_ends_the_relay() {
    let mut pump = Pump::new();
    assert_eq!(pump.next(PumpEvent::Peeked(None)), PumpAction::Broken);
    assert_eq!(pump.next(PumpEvent::Read(vec![])), PumpAction::Finish { flush: false });
}

#[test]
fn every_cut_of_a_text_is_shown_in_whole_characters() {
    let text = "a中é😀文z中文".as_bytes();
    for size in 1..text.len() {
        let mut pump = Pump::new();
        let mut shown: Vec<u8> = Vec::new();
        for chunk in text.chunks(size) {
            match pump.next(PumpEvent::Read(chunk.to_vec())) {
                PumpAction::Show(bytes) => {
                    assert!(std::str::from_utf8(&bytes).is_ok(), "size={size}");
                    shown.extend_from_slice(&bytes);
                }
                other => panic!("unexpected {other:?}"),
            }
        }
        assert_eq!(shown, text);
    }
}

#[test]
fn held_back_bytes_take_room() {
    let mut pump = Pump::new();
    assert_eq!(pump.next(PumpEvent::Read(vec![b'a', 0xE4, 0xB8])), PumpAction::Show(vec![b'a']));
    assert_eq!(pump.next(PumpEvent::Peeked(Some(9))), PumpAction::Read { room: 8190 });
    assert_eq!(
        pump.next(PumpEvent::Read(vec![0xAD, b'b'])),
        PumpAction::Show(vec![0xE4, 0xB8, 0xAD, b'b'])
    );
    // Bytes that are no text pass through as they are.
    assert_eq!(
        pump.next(PumpEvent::Read(vec![0xFF, 0x80, 0x80])),
        PumpAction::Show(vec![0xFF, 0x80, 0x80])
    );
}

#[test]
fn keyboard_chunks_are_cut_to_what_was_read() {
    let buf = b"abcdef";
    assert_eq!(read_stdin(buf, StdinRead::Bytes(2)), StdinAction::Forward(b"ab".to_vec()));
    assert_eq!(read_stdin(buf, StdinRead::Bytes(0)), StdinAction::Stop);
    assert_eq!(read_stdin(buf, StdinRead::Interrupted), StdinAction::Retry);
    assert_eq!(read_stdin(buf, StdinRead::Failed), StdinAction::Stop);
}

#[test]
fn the_keyboard_is_read_until_its_end() {
    // What each read puts into the buffer, what it gives, and whether the pump is there.
    let reads: [(&[u8; 4], StdinRead, bool); 6] = [
        (b"ls__", StdinRead::Bytes(2), true),
        (b"____", StdinRead::Interrupted, true),
        (b" -la", StdinRead::Bytes(4), true),
        (b"\r___", StdinRead::Bytes(1), true),
        (b"____", StdinRead::Failed, true),
        (b"late", StdinRead::Bytes(4), true),
    ];
    let mut forwarded: Vec<u8> = Vec::new();
    let mut made = 0;
    for (buf, outcome, taken) in reads {
        made += 1;
        let mut action = read_stdin(buf, outcome);
        if let StdinAction::Forward(chunk) = action {
            if taken {
                forwarded.extend_from_slice(&chunk);
            }
            action = keys_handed_over(taken);
        }
        if action == StdinAction::Stop {
            break;
        }
        assert_eq!(action, StdinAction::Retry);
    }
    assert_eq!(forwarded, b"ls -la\r");
    assert_eq!(made, 5);
}

#[test]
fn without_a_pump_the_keyboard_is_not_read_on() {
    assert_eq!(keys_handed_over(true), StdinAction::Retry);
    assert_eq!(keys_handed_over(false), StdinAction::Stop);
}

#[test]
fn all_but_a_cut_sequence_is_shown_at_once() {
    // Text, stray continuation bytes, bytes that begin nothing, and cut sequences.
    let bytes = [
        b'a', 0xE4, 0xB8, 0xAD, 0x80, 0x80, 0xFF, 0xE4, 0xE4, 0xB8, b'b', 0xF0, 0x9F, 0x98, 0x80,
        0x80, 0xC3, 0xF0, 0x9F,
    ];
    for size in 1..=bytes.len() {
        let mut pump = Pump::new();
        let mut shown: Vec<u8> = Vec::new();
        let mut read = 0;
        for chunk in bytes.chunks(size) {
            read += chunk.len();
            match pump.next(PumpEvent::Read(chunk.to_vec())) {
                PumpAction::Show(b) => shown.extend_from_slice(&b),
                other => panic!("unexpected {other:?}"),
            }
            let safe = complete_utf8_prefix(&bytes, read);
            assert_eq!(shown, bytes[..safe], "size={size} read={read}");
        }
        assert_eq!(shown.len(), 17);
    }
}
