use termhost::console::{
    console_ctrl_handler, install_console, invalid_handle, raw_input_mode, restore_console,
    step_failure, valid, vt_output_mode, ConsoleCall, ConsoleReadings, InstallStep, SavedModes,
    CTRL_BREAK_EVENT, CTRL_CLOSE_EVENT, CTRL_C_EVENT, CTRL_LOGOFF_EVENT, CTRL_SHUTDOWN_EVENT,
    ENABLE_ECHO_INPUT, ENABLE_EXTENDED_FLAGS, ENABLE_LINE_INPUT, ENABLE_MOUSE_INPUT,
    ENABLE_PROCESSED_INPUT, ENABLE_PROCESSED_OUTPUT, ENABLE_QUICK_EDIT_MODE,
    ENABLE_VIRTUAL_TERMINAL_INPUT, ENABLE_VIRTUAL_TERMINAL_PROCESSING, ENABLE_WINDOW_INPUT,
    NO_CONSOLE_MESSAGE, PROCESSED_OUTPUT_OFF_MESSAGE, STD_INPUT_HANDLE, STD_OUTPUT_HANDLE,
    UTF8_CODE_PAGE,
};
use termhost::terminals::{
    cannot_open_report, list_terminals, no_id_report, raw_pipe_path, resolve_term_id, terminal_id,
    trim, white_space, RAW_PIPE_PREFIX,
};
use termhost::text_order::not_after;
use termhost::utf8_prefix::complete_utf8_prefix;
use termhost::window_size::{
    claim_failure, claim_size, claim_step, console_size, Claim, ClaimEvent, ClaimStep,
    ConsoleScreenBufferInfo, Coord, DaemonRequest, SizePoller, SmallRect,
};

fn strings(items: &[&str]) -> Vec<String> {
    items.iter().map(|s| s.to_string()).collect()
}

#[test]
fn raw_pipe_path_matches_the_server() {
    assert_eq!(raw_pipe_path("term-42"), r"\\.\pipe\termhost-raw-term-42");
}

#[test]
fn list_terminals_strips_the_prefix() {
    const NAME: &str = "termhost-raw-term-7";
    assert_eq!(NAME.strip_prefix(RAW_PIPE_PREFIX), Some("term-7"));
    assert_eq!(terminal_id(NAME), Some("term-7".to_string()));
    assert_eq!(list_terminals(&strings(&[NAME])), strings(&["term-7"]));
}

#[test]
fn list_terminals_ignores_foreign_pipes() {
    const NAME: &str = "termhost-pty-v1";
    assert_eq!(NAME.strip_prefix(RAW_PIPE_PREFIX), None);
    assert_eq!(terminal_id(NAME), None);
    assert_eq!(list_terminals(&strings(&[NAME])), Vec::<String>::new());
}

#[test]
fn invalid_handle_is_recognised() {
    assert!(!valid(invalid_handle()));
    assert!(!valid(0));
    assert!(valid(4));
    assert!(valid(-2));
}

const TYPICAL_INPUT_MODE: u32 = ENABLE_PROCESSED_INPUT
    | ENABLE_LINE_INPUT
    | ENABLE_ECHO_INPUT
    | ENABLE_MOUSE_INPUT
    | ENABLE_WINDOW_INPUT
    | ENABLE_QUICK_EDIT_MODE
    | 0x0010_0000;

#[test]
fn mode_constants_match_wincon_h() {
    assert_eq!(ENABLE_PROCESSED_INPUT, 0x0001);
    assert_eq!(ENABLE_LINE_INPUT, 0x0002);
    assert_eq!(ENABLE_ECHO_INPUT, 0x0004);
    assert_eq!(ENABLE_WINDOW_INPUT, 0x0008);
    assert_eq!(ENABLE_MOUSE_INPUT, 0x0010);
    assert_eq!(ENABLE_QUICK_EDIT_MODE, 0x0040);
    assert_eq!(ENABLE_EXTENDED_FLAGS, 0x0080);
    assert_eq!(ENABLE_VIRTUAL_TERMINAL_INPUT, 0x0200);
    assert_eq!(ENABLE_PROCESSED_OUTPUT, 0x0001);
    assert_eq!(ENABLE_VIRTUAL_TERMINAL_PROCESSING, 0x0004);
    assert_eq!(CTRL_C_EVENT, 0);
    assert_eq!(CTRL_BREAK_EVENT, 1);
    assert_eq!(CTRL_CLOSE_EVENT, 2);
    assert_eq!(CTRL_LOGOFF_EVENT, 5);
    assert_eq!(CTRL_SHUTDOWN_EVENT, 6);
    assert_eq!(STD_INPUT_HANDLE, (-10i32) as u32);
    assert_eq!(STD_OUTPUT_HANDLE, (-11i32) as u32);
    assert_eq!(UTF8_CODE_PAGE, 65001);
}

#[test]
fn screen_buffer_info_layout_matches_wincon_h() {
    assert_eq!(std::mem::size_of::<Coord>(), 4);
    assert_eq!(std::mem::size_of::<SmallRect>(), 8);
    assert_eq!(std::mem::size_of::<ConsoleScreenBufferInfo>(), 22);
    assert_eq!(std::mem::align_of::<ConsoleScreenBufferInfo>(), 2);
}

#[test]
fn utf8_prefix_keeps_ascii_whole() {
    let buf = b"hello";
    assert_eq!(complete_utf8_prefix(buf, buf.len()), 5);
}

#[test]
fn utf8_prefix_holds_back_a_split_character() {
    let s = "中文中文".as_bytes();
    assert_eq!(s.len(), 12);
    for cut in 1..s.len() {
        let safe = complete_utf8_prefix(s, cut);
        assert!(safe <= cut);
        assert!(
            std::str::from_utf8(&s[..safe]).is_ok(),
            "cut={cut} safe={safe} is no valid UTF-8 prefix"
        );
        assert!(cut - safe <= 3, "cut={cut} safe={safe} holds back too much");
    }
}

#[test]
fn utf8_prefix_holds_back_a_split_four_byte_character() {
    let s = "😀".as_bytes();
    assert_eq!(s.len(), 4);
    assert_eq!(complete_utf8_prefix(s, 1), 0);
    assert_eq!(complete_utf8_prefix(s, 2), 0);
    assert_eq!(complete_utf8_prefix(s, 3), 0);
    assert_eq!(complete_utf8_prefix(s, 4), 4);
}

#[test]
fn utf8_prefix_does_not_stall_on_invalid_bytes() {
    let buf = [0x80u8, 0x80, 0x80, 0x80, 0x80];
    assert_eq!(complete_utf8_prefix(&buf, buf.len()), 5);
    let buf = [b'a', 0xFF];
    assert_eq!(complete_utf8_prefix(&buf, buf.len()), 2);
}

#[test]
fn utf8_prefix_finds_the_exact_cut() {
    assert_eq!(complete_utf8_prefix(&[], 0), 0);
    assert_eq!(complete_utf8_prefix(&[b'a', 0xC3], 2), 1);
    assert_eq!(complete_utf8_prefix(&[b'a', 0xC3, 0xA9], 3), 3);
    assert_eq!(complete_utf8_prefix(&[0xE4, 0xB8], 2), 0);
    assert_eq!(complete_utf8_prefix(&[b'x', 0xF0, 0x9F, 0x98], 4), 1);
    // What lies behind `n` is not looked at.
    assert_eq!(complete_utf8_prefix(&[b'x', 0xF0, 0x9F, 0x98], 1), 1);
    // Three continuation bytes whose first byte is out of sight.
    assert_eq!(complete_utf8_prefix(&[0xF0, 0x80, 0x80, 0x80], 4), 4);
}

#[test]
fn raw_input_mode_clears_the_processing_bits() {
    let raw = raw_input_mode(TYPICAL_INPUT_MODE);
    for bit in [
        ENABLE_ECHO_INPUT,
        ENABLE_LINE_INPUT,
        ENABLE_PROCESSED_INPUT,
        ENABLE_MOUSE_INPUT,
        ENABLE_WINDOW_INPUT,
        ENABLE_QUICK_EDIT_MODE,
    ] {
        assert_eq!(raw & bit, 0, "bit {bit:#x} should have been cleared");
    }
}

#[test]
fn raw_input_mode_enables_vt_input() {
    let raw = raw_input_mode(TYPICAL_INPUT_MODE);
    assert_ne!(raw & ENABLE_VIRTUAL_TERMINAL_INPUT, 0);
    assert_ne!(raw & ENABLE_EXTENDED_FLAGS, 0);
    assert_ne!(raw & 0x0010_0000, 0);
    assert_eq!(raw, 0x0010_0280);
}

#[test]
fn vt_output_mode_keeps_processed_output() {
    const ENABLE_WRAP_AT_EOL_OUTPUT: u32 = 0x0002;
    let mode = ENABLE_PROCESSED_OUTPUT | ENABLE_WRAP_AT_EOL_OUTPUT;
    let out = vt_output_mode(mode);
    assert_ne!(out & ENABLE_VIRTUAL_TERMINAL_PROCESSING, 0);
    assert_ne!(out & ENABLE_PROCESSED_OUTPUT, 0, "VT processing depends on this bit");
    assert_ne!(out & ENABLE_WRAP_AT_EOL_OUTPUT, 0);
    assert_eq!(out, 7);
}

fn readings() -> ConsoleReadings {
    ConsoleReadings {
        input_handle: 3,
        input_mode: Some(0x1F7),
        output_handle: 7,
        output_mode: Some(0x3),
        in_code_page: 936,
        out_code_page: 437,
    }
}

#[test]
fn install_saves_then_switches() {
    let mut slot: Option<SavedModes> = None;
    let steps = install_console(&mut slot, &readings());
    assert_eq!(
        slot,
        Some(SavedModes {
            input: Some((3, 0x1F7)),
            output: Some((7, 0x3)),
            in_code_page: Some(936),
            out_code_page: Some(437),
        })
    );
    assert_eq!(
        steps,
        vec![
            InstallStep::SetCtrlHandler,
            InstallStep::Call(ConsoleCall::SetInputMode { handle: 3, mode: 0x3A0 }),
            InstallStep::Call(ConsoleCall::SetOutputMode { handle: 7, mode: 0x7 }),
            InstallStep::Call(ConsoleCall::SetInputCodePage(65001)),
            InstallStep::Call(ConsoleCall::SetOutputCodePage(65001)),
        ]
    );
}

#[test]
fn install_without_a_console_changes_nothing() {
    let mut slot: Option<SavedModes> = None;
    let mut r = readings();
    r.input_handle = invalid_handle();
    r.output_mode = None;
    assert!(!r.on_console());
    assert_eq!(install_console(&mut slot, &r), vec![InstallStep::WarnNoConsole]);
    assert_eq!(slot, None);
}

#[test]
fn install_handles_half_a_console() {
    let mut slot: Option<SavedModes> = None;
    let mut r = readings();
    r.input_mode = None;
    r.output_mode = Some(0x2);
    r.in_code_page = 0;
    assert!(r.on_console());
    assert_eq!(
        install_console(&mut slot, &r),
        vec![
            InstallStep::SetCtrlHandler,
            InstallStep::WarnProcessedOutputOff,
            InstallStep::Call(ConsoleCall::SetOutputMode { handle: 7, mode: 0x6 }),
            InstallStep::Call(ConsoleCall::SetOutputCodePage(65001)),
        ]
    );
}

#[test]
fn restore_puts_back_what_was_read_and_only_once() {
    let mut slot: Option<SavedModes> = None;
    install_console(&mut slot, &readings());
    assert_eq!(
        restore_console(&mut slot),
        vec![
            ConsoleCall::SetInputMode { handle: 3, mode: 0x1F7 },
            ConsoleCall::SetOutputMode { handle: 7, mode: 0x3 },
            ConsoleCall::SetInputCodePage(936),
            ConsoleCall::SetOutputCodePage(437),
        ]
    );
    assert_eq!(slot, None);
    assert_eq!(restore_console(&mut slot), vec![]);
}

#[test]
fn control_events_restore_and_go_on() {
    for event in [0u32, 1, 2, 5, 6] {
        let mut slot: Option<SavedModes> = None;
        install_console(&mut slot, &readings());
        let (calls, answer) = console_ctrl_handler(&mut slot, event);
        assert_eq!(calls.len(), 4);
        assert_eq!(answer, 0);
        assert_eq!(slot, None);
    }
    let mut slot: Option<SavedModes> = None;
    install_console(&mut slot, &readings());
    let (calls, answer) = console_ctrl_handler(&mut slot, 3);
    assert_eq!(calls, vec![]);
    assert_eq!(answer, 0);
    assert!(slot.is_some());
}

#[test]
fn failed_steps_are_reported() {
    assert_eq!(
        step_failure(InstallStep::Call(ConsoleCall::SetInputMode { handle: 3, mode: 0 }), "denied"),
        Some("termhost-bridge: SetConsoleMode(stdin) failed: denied".to_string())
    );
    assert_eq!(
        step_failure(InstallStep::Call(ConsoleCall::SetOutputCodePage(65001)), "denied"),
        Some("termhost-bridge: SetConsoleOutputCP(65001) failed: denied".to_string())
    );
    assert_eq!(
        step_failure(InstallStep::SetCtrlHandler, "denied"),
        Some(
            "termhost-bridge: SetConsoleCtrlHandler failed: denied - Ctrl+Break or closing the window may leave the console in raw mode"
                .to_string()
        )
    );
    assert_eq!(step_failure(InstallStep::WarnNoConsole, "denied"), None);
}

#[test]
fn messages_are_ascii() {
    assert_eq!(
        NO_CONSOLE_MESSAGE,
        "termhost-bridge: no console attached to stdin/stdout - the terminal is relayed as raw bytes, escape sequences will NOT be interpreted"
    );
    assert_eq!(
        PROCESSED_OUTPUT_OFF_MESSAGE,
        "termhost-bridge: ENABLE_PROCESSED_OUTPUT is off - escape sequences may be printed literally"
    );
    let mut lines = strings(&[NO_CONSOLE_MESSAGE, PROCESSED_OUTPUT_OFF_MESSAGE]);
    for step in [
        InstallStep::SetCtrlHandler,
        InstallStep::Call(ConsoleCall::SetInputMode { handle: 3, mode: 0 }),
        InstallStep::Call(ConsoleCall::SetOutputMode { handle: 7, mode: 0 }),
        InstallStep::Call(ConsoleCall::SetInputCodePage(65001)),
        InstallStep::Call(ConsoleCall::SetOutputCodePage(65001)),
    ] {
        lines.extend(step_failure(step, "denied"));
    }
    lines.extend(no_id_report(&strings(&["a"])));
    lines.extend(no_id_report(&vec![]));
    lines.extend(cannot_open_report("a", "busy", &strings(&["a"])));
    lines.extend(cannot_open_report("a", "busy", &vec![]));
    lines.push(claim_failure((80, 24), "a", "busy"));
    for line in lines {
        assert!(line.is_ascii(), "{line}");
    }
}

#[test]
fn terminals_are_listed_in_order() {
    let names = strings(&[
        "termhost-raw-term-9",
        "lsass",
        "termhost-raw-term-10",
        "termhost-raw-é",
        "termhost-raw-",
        "termhost-raw-term-1",
        "termhost-pty-v1",
        "termhost-raw-term-1",
    ]);
    let mut expected = strings(&["term-9", "term-10", "é", "", "term-1", "term-1"]);
    expected.sort();
    assert_eq!(list_terminals(&names), expected);
    assert_eq!(expected[0], "");
    assert_eq!(expected[1], "term-1");
}

#[test]
fn text_order_is_that_of_std() {
    let samples = ["", "a", "b", "ab", "abc", "é", "中", "😀", "\u{FFFF}", "term-10", "term-9"];
    for a in samples {
        for b in samples {
            assert_eq!(not_after(a, b), a <= b, "{a:?} {b:?}");
        }
    }
}

#[test]
fn white_space_is_that_of_std() {
    for n in 0..=0x10FFFFu32 {
        if let Some(c) = char::from_u32(n) {
            assert_eq!(white_space(c), c.is_whitespace(), "{n:#x}");
        }
    }
    for text in ["", "  ", " a ", "\ta b\r\n", "\u{3000}中\u{85}", "x"] {
        assert_eq!(trim(text), text.trim());
    }
}

#[test]
fn environment_names_the_terminal_first() {
    assert_eq!(resolve_term_id(Some(" term-1\r\n"), Some("term-2")), Some("term-1".to_string()));
    assert_eq!(resolve_term_id(Some("  "), Some(" term-2 ")), Some("term-2".to_string()));
    assert_eq!(resolve_term_id(None, Some("term-2")), Some("term-2".to_string()));
    assert_eq!(resolve_term_id(None, Some("--help")), None);
    assert_eq!(resolve_term_id(Some("-odd"), Some("term-2")), Some("-odd".to_string()));
    assert_eq!(resolve_term_id(Some(""), Some(" ")), None);
    assert_eq!(resolve_term_id(None, None), None);
}

#[test]
fn reports_name_the_terminals_there_are() {
    assert_eq!(
        no_id_report(&strings(&["a", "b"])),
        strings(&[
            "termhost-bridge: no terminal id given. Terminals you can pop out:",
            "  a",
            "  b",
            "",
            "usage: termhost-bridge <terminal-id>",
            "   or: set TERMHOST_TERM_ID=<terminal-id> and run it without arguments",
        ])
    );
    assert_eq!(
        no_id_report(&vec![])[0],
        "termhost-bridge: no terminal id given, and no terminal is currently running."
    );
    let lines = cannot_open_report("t", "busy", &vec![]);
    assert_eq!(lines[0], r"termhost-bridge: cannot open \\.\pipe\termhost-raw-t: busy");
    assert_eq!(lines[2], "currently no terminal is running");
    let lines = cannot_open_report("t", "busy", &strings(&["a"]));
    assert_eq!(lines[2..].to_vec(), strings(&["available terminals:", "  a"]));
}

fn info(left: i16, top: i16, right: i16, bottom: i16, x: i16, y: i16) -> ConsoleScreenBufferInfo {
    ConsoleScreenBufferInfo {
        size: Coord { x, y },
        cursor_position: Coord { x: 0, y: 0 },
        attributes: 7,
        window: SmallRect { left, top, right, bottom },
        maximum_window_size: Coord { x: 0, y: 0 },
    }
}

#[test]
fn the_window_counts_and_not_the_buffer() {
    assert_eq!(console_size(7, Some(info(0, 100, 79, 123, 80, 9001))), Some((80, 24)));
    // No window to speak of: the buffer stands in.
    assert_eq!(console_size(7, Some(info(0, 0, -1, 23, 100, 30))), Some((100, 30)));
    assert_eq!(console_size(7, Some(info(0, 0, -1, 23, 0, 30))), None);
    assert_eq!(console_size(7, None), None);
    assert_eq!(console_size(invalid_handle(), Some(info(0, 0, 79, 23, 80, 24))), None);
    // The widest window there can be does not fit 16 bits.
    assert_eq!(console_size(7, Some(info(i16::MIN, 0, i16::MAX, 9, 0, 0))), Some((0, 10)));
}

#[test]
fn a_claim_is_a_resize() {
    assert_eq!(
        claim_size("term-7", 120, 40),
        DaemonRequest::Resize { seq: 1, id: "term-7".to_string(), cols: 120, rows: 40 }
    );
}

fn looked(peeked: Option<u32>, elapsed_ms: u64) -> ClaimEvent {
    ClaimEvent::Looked { peeked, elapsed_ms }
}

#[test]
fn a_claim_does_not_wait_for_ever() {
    let size = (80, 24);
    let made = ClaimStep::End(Claim { size, made: true });
    assert_eq!(claim_step(size, looked(None, 0)), made);
    assert_eq!(claim_step(size, looked(Some(1), 5000)), ClaimStep::ReadAnswer);
    assert_eq!(claim_step(size, looked(Some(0), 999)), ClaimStep::Wait);
    assert_eq!(claim_step(size, looked(Some(0), 1000)), made);
    assert_eq!(claim_step(size, ClaimEvent::Waited), ClaimStep::Look);
    let mut waits = 0;
    while claim_step(size, looked(Some(0), waits * 5)) == ClaimStep::Wait {
        waits += 1;
    }
    assert_eq!(waits, 200);
}

#[test]
fn a_claim_is_made_once_it_is_sent() {
    let size = (120, 40);
    // How the daemon behaves: what each look finds.
    let daemons: [&[Option<u32>]; 4] =
        [&[Some(0), Some(9)], &[Some(0), None], &[None], &[Some(0); 300]];
    for daemon in daemons {
        let mut event = ClaimEvent::Written { sent: true };
        let mut looks = 0;
        let claim = loop {
            event = match claim_step(size, event) {
                ClaimStep::Look => {
                    looks += 1;
                    looked(daemon[looks - 1], looks as u64 * 5)
                }
                ClaimStep::Wait => ClaimEvent::Waited,
                ClaimStep::ReadAnswer => ClaimEvent::AnswerRead,
                ClaimStep::End(claim) => break claim,
            };
        };
        assert_eq!(claim, Claim { size, made: true });
    }
    assert_eq!(
        claim_step(size, ClaimEvent::Written { sent: false }),
        ClaimStep::End(Claim { size, made: false })
    );
}

#[test]
fn sizes_are_claimed_until_a_claim_is_made() {
    let mut poller = SizePoller::new();
    assert_eq!(poller.poll_size(None), None);
    assert_eq!(poller.poll_size(Some((80, 24))), Some((80, 24)));
    assert!(poller.claimed(Claim { size: (80, 24), made: false }));
    assert_eq!(poller.poll_size(Some((80, 24))), Some((80, 24)));
    assert!(!poller.claimed(Claim { size: (80, 24), made: false }));
    assert!(!poller.claimed(Claim { size: (80, 24), made: true }));
    assert_eq!(poller.poll_size(Some((80, 24))), None);
    assert_eq!(poller.poll_size(Some((81, 24))), Some((81, 24)));
    // A failure is reported again once a claim has been made, and what was
    // claimed is still what was claimed.
    assert!(poller.claimed(Claim { size: (81, 24), made: false }));
    assert_eq!(poller.poll_size(Some((80, 24))), None);
}

#[test]
fn failed_claims_are_worded() {
    assert_eq!(
        claim_failure((80, 24), "term-7", "no daemon"),
        "termhost-bridge: could not claim (80, 24) for term-7: no daemon"
    );
    assert_eq!(
        claim_failure((0, 65535), "t", "e"),
        format!("termhost-bridge: could not claim {:?} for t: e", (0u16, 65535u16))
    );
}
