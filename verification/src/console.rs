//! The console that a popped-out terminal runs in.
//!
//! While the relay runs, the console is in raw VT mode: keys arrive as bytes,
//! unechoed and one by one, and the console interprets the escape sequences
//! that the terminal sends. A console left in that state is of no use to the
//! shell it belongs to. So what it was set to is saved before anything is
//! changed, and every way out of the program puts it back.
//!
//! The functions here decide which console calls to make, with which values
//! and in which order; the program around them makes the calls.

use vstd::prelude::*;
use vstd::utf8::*;

verus! {

/// `GetStdHandle`'s number for standard input, `(DWORD)-10`.
pub const STD_INPUT_HANDLE: u32 = 0xFFFF_FFF6;

/// `GetStdHandle`'s number for standard output, `(DWORD)-11`.
pub const STD_OUTPUT_HANDLE: u32 = 0xFFFF_FFF5;

pub const CTRL_C_EVENT: u32 = 0;

pub const CTRL_BREAK_EVENT: u32 = 1;

pub const CTRL_CLOSE_EVENT: u32 = 2;

pub const CTRL_LOGOFF_EVENT: u32 = 5;

pub const CTRL_SHUTDOWN_EVENT: u32 = 6;

/// Input: Ctrl+C becomes a signal. Cleared: it is a byte for the terminal.
pub const ENABLE_PROCESSED_INPUT: u32 = 0x0001;

/// Input: keys are handed over line by line. Cleared: they arrive at once.
pub const ENABLE_LINE_INPUT: u32 = 0x0002;

/// Input: the console echoes keys. Cleared: the terminal's program does.
pub const ENABLE_ECHO_INPUT: u32 = 0x0004;

/// Input: window events are reported. Cleared: the size is polled.
pub const ENABLE_WINDOW_INPUT: u32 = 0x0008;

/// Input: the console reports the mouse. Cleared: the terminal's program asks for it.
pub const ENABLE_MOUSE_INPUT: u32 = 0x0010;

/// Input: a click selects text, which freezes the output.
pub const ENABLE_QUICK_EDIT_MODE: u32 = 0x0040;

/// Input: without this bit the quick edit bit is not looked at.
pub const ENABLE_EXTENDED_FLAGS: u32 = 0x0080;

/// Input: keys arrive as VT byte sequences.
pub const ENABLE_VIRTUAL_TERMINAL_INPUT: u32 = 0x0200;

/// Output: VT processing depends on it.
pub const ENABLE_PROCESSED_OUTPUT: u32 = 0x0001;

/// Output: the console interprets escape sequences.
pub const ENABLE_VIRTUAL_TERMINAL_PROCESSING: u32 = 0x0004;

pub const UTF8_CODE_PAGE: u32 = 65001;

/// Said once, when neither standard input nor standard output is a console.
pub const NO_CONSOLE_MESSAGE: &'static str = "termhost-bridge: no console attached to stdin/stdout - the terminal is relayed as raw bytes, escape sequences will NOT be interpreted";

/// Said when escape sequences would be printed instead of interpreted.
pub const PROCESSED_OUTPUT_OFF_MESSAGE: &'static str = "termhost-bridge: ENABLE_PROCESSED_OUTPUT is off - escape sequences may be printed literally";

/// `INVALID_HANDLE_VALUE`.
pub fn invalid_handle() -> (h: isize)
    ensures
        h == -1,
{
    -1
}

/// A handle is valid unless it is null or `INVALID_HANDLE_VALUE`.
pub open spec fn is_valid_handle(h: isize) -> bool {
    h != 0 && h != -1
}

/// Whether `h` is a handle that can be used.
pub fn valid(h: isize) -> (r: bool)
    ensures
        r == is_valid_handle(h),
{
    h != 0 && h != invalid_handle()
}

/// The input mode for the relay: the bits by which the console works on input
/// itself are off, VT input is on.
pub open spec fn raw_input(mode: u32) -> u32 {
    (mode & !(ENABLE_ECHO_INPUT | ENABLE_LINE_INPUT | ENABLE_PROCESSED_INPUT | ENABLE_MOUSE_INPUT
        | ENABLE_WINDOW_INPUT | ENABLE_QUICK_EDIT_MODE)) | ENABLE_EXTENDED_FLAGS
        | ENABLE_VIRTUAL_TERMINAL_INPUT
}

/// The mode that the input handle is switched to.
pub fn raw_input_mode(mode: u32) -> (raw: u32)
    ensures
        raw == raw_input(mode),
        raw & ENABLE_ECHO_INPUT == 0,
        raw & ENABLE_LINE_INPUT == 0,
        raw & ENABLE_PROCESSED_INPUT == 0,
        raw & ENABLE_MOUSE_INPUT == 0,
        raw & ENABLE_WINDOW_INPUT == 0,
        raw & ENABLE_QUICK_EDIT_MODE == 0,
        raw & ENABLE_EXTENDED_FLAGS == ENABLE_EXTENDED_FLAGS,
        raw & ENABLE_VIRTUAL_TERMINAL_INPUT == ENABLE_VIRTUAL_TERMINAL_INPUT,
        // The other bits stay as they were.
        raw & !0x02DFu32 == mode & !0x02DFu32,
{
    let raw: u32 = (mode & !(ENABLE_ECHO_INPUT | ENABLE_LINE_INPUT | ENABLE_PROCESSED_INPUT
        | ENABLE_MOUSE_INPUT | ENABLE_WINDOW_INPUT | ENABLE_QUICK_EDIT_MODE))
        | ENABLE_EXTENDED_FLAGS | ENABLE_VIRTUAL_TERMINAL_INPUT;
    assert(raw == ((mode & !(0x04u32 | 0x02u32 | 0x01u32 | 0x10u32 | 0x08u32 | 0x40u32)) | 0x80u32
        | 0x200u32));
    assert({
        &&& raw & 0x04 == 0
        &&& raw & 0x02 == 0
        &&& raw & 0x01 == 0
        &&& raw & 0x10 == 0
        &&& raw & 0x08 == 0
        &&& raw & 0x40 == 0
        &&& raw & 0x80 == 0x80
        &&& raw & 0x200 == 0x200
        &&& raw & !0x02DFu32 == mode & !0x02DFu32
    }) by (bit_vector)
        requires
            raw == ((mode & !(0x04u32 | 0x02u32 | 0x01u32 | 0x10u32 | 0x08u32 | 0x40u32)) | 0x80u32
                | 0x200u32),
    ;
    raw
}

/// The output mode for the relay: VT processing is on, all else is as it was.
pub open spec fn vt_output(mode: u32) -> u32 {
    mode | ENABLE_VIRTUAL_TERMINAL_PROCESSING
}

/// The mode that the output handle is switched to.
pub fn vt_output_mode(mode: u32) -> (out: u32)
    ensures
        out == vt_output(mode),
        out & ENABLE_VIRTUAL_TERMINAL_PROCESSING == ENABLE_VIRTUAL_TERMINAL_PROCESSING,
        out & !ENABLE_VIRTUAL_TERMINAL_PROCESSING == mode & !ENABLE_VIRTUAL_TERMINAL_PROCESSING,
        out & ENABLE_PROCESSED_OUTPUT == mode & ENABLE_PROCESSED_OUTPUT,
{
    let out: u32 = mode | ENABLE_VIRTUAL_TERMINAL_PROCESSING;
    assert({
        &&& (mode | 0x04u32) & 0x04 == 0x04
        &&& (mode | 0x04u32) & !0x04u32 == mode & !0x04u32
        &&& (mode | 0x04u32) & 0x01 == mode & 0x01
    }) by (bit_vector);
    out
}

/// What the console was set to before the relay changed it: a mode together
/// with the handle it belongs to, and the two code pages. `None` where there
/// is nothing to put back.
#[derive(Clone, Copy, Debug, PartialEq, Eq)]
pub struct SavedModes {
    pub input: Option<(isize, u32)>,
    pub output: Option<(isize, u32)>,
    pub in_code_page: Option<u32>,
    pub out_code_page: Option<u32>,
}

/// A call that changes the console.
#[derive(Clone, Copy, Debug, PartialEq, Eq)]
pub enum ConsoleCall {
    /// `SetConsoleMode` on the input handle.
    SetInputMode { handle: isize, mode: u32 },
    /// `SetConsoleMode` on the output handle.
    SetOutputMode { handle: isize, mode: u32 },
    /// `SetConsoleCP`.
    SetInputCodePage(u32),
    /// `SetConsoleOutputCP`.
    SetOutputCodePage(u32),
}

/// The calls that set the console to `saved`.
pub open spec fn calls_to(saved: SavedModes) -> Seq<ConsoleCall> {
    (match saved.input {
        Some((handle, mode)) => seq![ConsoleCall::SetInputMode { handle, mode }],
        None => seq![],
    }) + (match saved.output {
        Some((handle, mode)) => seq![ConsoleCall::SetOutputMode { handle, mode }],
        None => seq![],
    }) + (match saved.in_code_page {
        Some(page) => seq![ConsoleCall::SetInputCodePage(page)],
        None => seq![],
    }) + (match saved.out_code_page {
        Some(page) => seq![ConsoleCall::SetOutputCodePage(page)],
        None => seq![],
    })
}

/// The calls that put the console back: none, if nothing is saved.
pub open spec fn restore_calls(slot: Option<SavedModes>) -> Seq<ConsoleCall> {
    match slot {
        Some(saved) => calls_to(saved),
        None => seq![],
    }
}

/// Takes what is saved out of `slot`, and tells the calls that put the console
/// back. A second call finds nothing saved and asks for nothing.
pub fn restore_console(slot: &mut Option<SavedModes>) -> (calls: Vec<ConsoleCall>)
    ensures
        *final(slot) is None,
        calls@ == restore_calls(*old(slot)),
{
    let mut calls: Vec<ConsoleCall> = Vec::new();
    if let Some(saved) = slot.take() {
        if let Some((handle, mode)) = saved.input {
            calls.push(ConsoleCall::SetInputMode { handle, mode });
        }
        if let Some((handle, mode)) = saved.output {
            calls.push(ConsoleCall::SetOutputMode { handle, mode });
        }
        if let Some(page) = saved.in_code_page {
            calls.push(ConsoleCall::SetInputCodePage(page));
        }
        if let Some(page) = saved.out_code_page {
            calls.push(ConsoleCall::SetOutputCodePage(page));
        }
    }
    assert(calls@ =~= restore_calls(*old(slot)));
    calls
}

/// The control events after which the process may be gone.
pub open spec fn ends_the_program(ctrl_type: u32) -> bool {
    ||| ctrl_type == CTRL_C_EVENT
    ||| ctrl_type == CTRL_BREAK_EVENT
    ||| ctrl_type == CTRL_CLOSE_EVENT
    ||| ctrl_type == CTRL_LOGOFF_EVENT
    ||| ctrl_type == CTRL_SHUTDOWN_EVENT
}

/// The answer to a console control event: the calls that put the console back,
/// and what the handler returns. That is always `FALSE`: the event goes on to
/// the default handler, so a closing window or a shutdown is never held up.
pub fn console_ctrl_handler(slot: &mut Option<SavedModes>, ctrl_type: u32) -> (answer: (
    Vec<ConsoleCall>,
    i32,
))
    ensures
        answer.1 == 0,
        ends_the_program(ctrl_type) ==> *final(slot) is None && answer.0@ == restore_calls(
            *old(slot),
        ),
        !ends_the_program(ctrl_type) ==> *final(slot) == *old(slot) && answer.0@.len() == 0,
{
    if ctrl_type == CTRL_C_EVENT || ctrl_type == CTRL_BREAK_EVENT || ctrl_type == CTRL_CLOSE_EVENT
        || ctrl_type == CTRL_LOGOFF_EVENT || ctrl_type == CTRL_SHUTDOWN_EVENT {
        (restore_console(slot), 0)
    } else {
        (Vec::new(), 0)
    }
}

/// What was found about the console at the start.
#[derive(Clone, Copy, Debug, PartialEq, Eq)]
pub struct ConsoleReadings {
    /// The standard input handle.
    pub input_handle: isize,
    /// The input mode, `None` if `GetConsoleMode` failed.
    pub input_mode: Option<u32>,
    /// The standard output handle.
    pub output_handle: isize,
    /// The output mode, `None` if `GetConsoleMode` failed.
    pub output_mode: Option<u32>,
    /// What `GetConsoleCP` returned; 0 is a failure.
    pub in_code_page: u32,
    /// What `GetConsoleOutputCP` returned; 0 is a failure.
    pub out_code_page: u32,
}

/// A mode that was read, with its handle, if that handle is a console at all.
pub open spec fn known_mode(handle: isize, mode: Option<u32>) -> Option<(isize, u32)> {
    match mode {
        Some(m) => if is_valid_handle(handle) {
            Some((handle, m))
        } else {
            None
        },
        None => None,
    }
}

impl ConsoleReadings {
    /// Standard input or standard output is a console.
    pub open spec fn has_console(self) -> bool {
        ||| known_mode(self.input_handle, self.input_mode) is Some
        ||| known_mode(self.output_handle, self.output_mode) is Some
    }

    /// What has to be put back in the end.
    pub open spec fn saved(self) -> SavedModes {
        SavedModes {
            input: known_mode(self.input_handle, self.input_mode),
            output: known_mode(self.output_handle, self.output_mode),
            in_code_page: if self.has_console() && self.in_code_page != 0 {
                Some(self.in_code_page)
            } else {
                None
            },
            out_code_page: if self.has_console() && self.out_code_page != 0 {
                Some(self.out_code_page)
            } else {
                None
            },
        }
    }

    /// What the relay sets in place of [`ConsoleReadings::saved`].
    pub open spec fn wanted(self) -> SavedModes {
        SavedModes {
            input: match self.saved().input {
                Some((handle, mode)) => Some((handle, raw_input(mode))),
                None => None,
            },
            output: match self.saved().output {
                Some((handle, mode)) => Some((handle, vt_output(mode))),
                None => None,
            },
            in_code_page: match self.saved().in_code_page {
                Some(_) => Some(UTF8_CODE_PAGE),
                None => None,
            },
            out_code_page: match self.saved().out_code_page {
                Some(_) => Some(UTF8_CODE_PAGE),
                None => None,
            },
        }
    }

    /// Whether standard input or standard output is a console. Only then are
    /// the code pages worth reading.
    pub fn on_console(&self) -> (r: bool)
        ensures
            r == self.has_console(),
    {
        saved_mode(self.input_handle, self.input_mode).is_some() || saved_mode(
            self.output_handle,
            self.output_mode,
        ).is_some()
    }
}

/// What to save of a handle's mode: nothing for an invalid handle, or one
/// whose mode could not be read.
fn saved_mode(handle: isize, mode: Option<u32>) -> (saved: Option<(isize, u32)>)
    ensures
        saved == known_mode(handle, mode),
{
    match mode {
        Some(m) => if valid(handle) {
            Some((handle, m))
        } else {
            None
        },
        None => None,
    }
}

/// A step of the switch to raw VT mode.
#[derive(Clone, Copy, Debug, PartialEq, Eq)]
pub enum InstallStep {
    /// Say [`NO_CONSOLE_MESSAGE`].
    WarnNoConsole,
    /// Install the console control handler.
    SetCtrlHandler,
    /// Change the console.
    Call(ConsoleCall),
    /// Say [`PROCESSED_OUTPUT_OFF_MESSAGE`].
    WarnProcessedOutputOff,
}

/// The steps of the switch to raw VT mode, in their order.
pub open spec fn install_steps(r: ConsoleReadings) -> Seq<InstallStep> {
    if !r.has_console() {
        seq![InstallStep::WarnNoConsole]
    } else {
        seq![InstallStep::SetCtrlHandler] + (match r.saved().input {
            Some((handle, mode)) => seq![
                InstallStep::Call(
                    ConsoleCall::SetInputMode { handle, mode: raw_input(mode) },
                ),
            ],
            None => seq![],
        }) + (match r.saved().output {
            Some((handle, mode)) => (if mode & ENABLE_PROCESSED_OUTPUT == 0 {
                seq![InstallStep::WarnProcessedOutputOff]
            } else {
                seq![]
            }) + seq![
                InstallStep::Call(
                    ConsoleCall::SetOutputMode { handle, mode: vt_output(mode) },
                ),
            ],
            None => seq![],
        }) + (match r.saved().in_code_page {
            Some(_) => seq![InstallStep::Call(ConsoleCall::SetInputCodePage(UTF8_CODE_PAGE))],
            None => seq![],
        }) + (match r.saved().out_code_page {
            Some(_) => seq![InstallStep::Call(ConsoleCall::SetOutputCodePage(UTF8_CODE_PAGE))],
            None => seq![],
        })
    }
}

/// Saves what the console is set to in `slot`, and tells the steps that switch
/// it to raw VT mode. Without a console there is nothing to save or to switch.
///
/// The steps are for the time after the call. So nothing is changed before all
/// that may change is saved, and the control handler is there before the first
/// change. A step that fails is reported and the next one is taken.
pub fn install_console(slot: &mut Option<SavedModes>, readings: &ConsoleReadings) -> (steps: Vec<
    InstallStep,
>)
    ensures
        *final(slot) == if readings.has_console() {
            Some(readings.saved())
        } else {
            *old(slot)
        },
        steps@ == install_steps(*readings),
{
    let mut steps: Vec<InstallStep> = Vec::new();
    if !readings.on_console() {
        steps.push(InstallStep::WarnNoConsole);
        assert(steps@ =~= install_steps(*readings));
        return steps;
    }
    let saved = SavedModes {
        input: saved_mode(readings.input_handle, readings.input_mode),
        output: saved_mode(readings.output_handle, readings.output_mode),
        in_code_page: if readings.in_code_page != 0 {
            Some(readings.in_code_page)
        } else {
            None
        },
        out_code_page: if readings.out_code_page != 0 {
            Some(readings.out_code_page)
        } else {
            None
        },
    };
    *slot = Some(saved);
    steps.push(InstallStep::SetCtrlHandler);
    if let Some((handle, mode)) = saved.input {
        steps.push(
            InstallStep::Call(ConsoleCall::SetInputMode { handle, mode: raw_input_mode(mode) }),
        );
    }
    if let Some((handle, mode)) = saved.output {
        if mode & ENABLE_PROCESSED_OUTPUT == 0 {
            steps.push(InstallStep::WarnProcessedOutputOff);
        }
        steps.push(
            InstallStep::Call(ConsoleCall::SetOutputMode { handle, mode: vt_output_mode(mode) }),
        );
    }
    if saved.in_code_page.is_some() {
        steps.push(InstallStep::Call(ConsoleCall::SetInputCodePage(UTF8_CODE_PAGE)));
    }
    if saved.out_code_page.is_some() {
        steps.push(InstallStep::Call(ConsoleCall::SetOutputCodePage(UTF8_CODE_PAGE)));
    }
    assert(steps@ =~= install_steps(*readings));
    steps
}

/// What is said of a step that failed with `error`; the two warnings cannot fail.
pub open spec fn step_failure_text(step: InstallStep, error: Seq<char>) -> Option<Seq<char>> {
    match step {
        InstallStep::SetCtrlHandler => Some(
            "termhost-bridge: SetConsoleCtrlHandler failed: "@ + error
                + " - Ctrl+Break or closing the window may leave the console in raw mode"@,
        ),
        InstallStep::Call(ConsoleCall::SetInputMode { .. }) => Some(
            "termhost-bridge: SetConsoleMode(stdin) failed: "@ + error,
        ),
        InstallStep::Call(ConsoleCall::SetOutputMode { .. }) => Some(
            "termhost-bridge: SetConsoleMode(stdout) failed: "@ + error,
        ),
        InstallStep::Call(ConsoleCall::SetInputCodePage(_)) => Some(
            "termhost-bridge: SetConsoleCP(65001) failed: "@ + error,
        ),
        InstallStep::Call(ConsoleCall::SetOutputCodePage(_)) => Some(
            "termhost-bridge: SetConsoleOutputCP(65001) failed: "@ + error,
        ),
        InstallStep::WarnNoConsole => None,
        InstallStep::WarnProcessedOutputOff => None,
    }
}

/// The line that reports a step that failed with `error`.
pub fn step_failure(step: InstallStep, error: &str) -> (line: Option<String>)
    ensures
        match step_failure_text(step, error@) {
            Some(text) => line matches Some(l) && l@ == text,
            None => line is None,
        },
{
    let (front, back): (&str, &str) = match step {
        InstallStep::SetCtrlHandler => (
            "termhost-bridge: SetConsoleCtrlHandler failed: ",
            " - Ctrl+Break or closing the window may leave the console in raw mode",
        ),
        InstallStep::Call(ConsoleCall::SetInputMode { .. }) => (
            "termhost-bridge: SetConsoleMode(stdin) failed: ",
            "",
        ),
        InstallStep::Call(ConsoleCall::SetOutputMode { .. }) => (
            "termhost-bridge: SetConsoleMode(stdout) failed: ",
            "",
        ),
        InstallStep::Call(ConsoleCall::SetInputCodePage(_)) => (
            "termhost-bridge: SetConsoleCP(65001) failed: ",
            "",
        ),
        InstallStep::Call(ConsoleCall::SetOutputCodePage(_)) => (
            "termhost-bridge: SetConsoleOutputCP(65001) failed: ",
            "",
        ),
        InstallStep::WarnNoConsole => return None,
        InstallStep::WarnProcessedOutputOff => return None,
    };
    let mut line: String = front.to_owned();
    line.append(error);
    line.append(back);
    proof {
        reveal_strlit("");
        assert(front@ + error@ + ""@ =~= front@ + error@);
    }
    Some(line)
}

/// The settings of a console: the mode of each of its handles, and its code pages.
#[verifier::ext_equal]
pub struct ConsoleModel {
    pub modes: Map<isize, u32>,
    pub in_code_page: u32,
    pub out_code_page: u32,
}

impl ConsoleModel {
    /// The settings after `call` has worked.
    pub open spec fn after_call(self, call: ConsoleCall) -> ConsoleModel {
        match call {
            ConsoleCall::SetInputMode { handle, mode } => ConsoleModel {
                modes: self.modes.insert(handle, mode),
                ..self
            },
            ConsoleCall::SetOutputMode { handle, mode } => ConsoleModel {
                modes: self.modes.insert(handle, mode),
                ..self
            },
            ConsoleCall::SetInputCodePage(page) => ConsoleModel { in_code_page: page, ..self },
            ConsoleCall::SetOutputCodePage(page) => ConsoleModel { out_code_page: page, ..self },
        }
    }

    /// The settings after `calls` have worked, one after the other.
    pub open spec fn after_calls(self, calls: Seq<ConsoleCall>) -> ConsoleModel
        decreases calls.len(),
    {
        if calls.len() == 0 {
            self
        } else {
            self.after_calls(calls.drop_last()).after_call(calls.last())
        }
    }

    /// The settings after `steps`, of which those at the positions in `worked` took effect.
    pub open spec fn after_steps(self, steps: Seq<InstallStep>, worked: Set<int>) -> ConsoleModel
        decreases steps.len(),
    {
        if steps.len() == 0 {
            self
        } else {
            let before = self.after_steps(steps.drop_last(), worked);
            match steps.last() {
                InstallStep::Call(call) => if worked.contains(steps.len() - 1) {
                    before.after_call(call)
                } else {
                    before
                },
                _ => before,
            }
        }
    }

    /// `saved` is what these settings are.
    pub open spec fn holds(self, saved: SavedModes) -> bool {
        &&& saved.input matches Some((h, m)) ==> self.modes.contains_key(h) && self.modes[h] == m
        &&& saved.output matches Some((h, m)) ==> self.modes.contains_key(h) && self.modes[h] == m
        &&& saved.in_code_page matches Some(page) ==> self.in_code_page == page
        &&& saved.out_code_page matches Some(page) ==> self.out_code_page == page
    }

    /// These settings differ from `other` at most where `saved` has something to put back.
    spec fn differs_within(self, other: ConsoleModel, saved: SavedModes) -> bool {
        &&& self.modes.dom() == other.modes.dom()
        &&& forall|h: isize| #[trigger]
            other.modes.contains_key(h) ==> {
                ||| self.modes[h] == other.modes[h]
                ||| saved.input matches Some((i, _)) && i == h
                ||| saved.output matches Some((o, _)) && o == h
            }
        &&& saved.in_code_page is None ==> self.in_code_page == other.in_code_page
        &&& saved.out_code_page is None ==> self.out_code_page == other.out_code_page
    }
}

/// `call` changes nothing but what `saved` can put back.
spec fn call_within(call: ConsoleCall, saved: SavedModes) -> bool {
    match call {
        ConsoleCall::SetInputMode { handle, .. } => saved.input matches Some((h, _)) && h == handle,
        ConsoleCall::SetOutputMode { handle, .. } => saved.output matches Some((h, _)) && h
            == handle,
        ConsoleCall::SetInputCodePage(_) => saved.in_code_page is Some,
        ConsoleCall::SetOutputCodePage(_) => saved.out_code_page is Some,
    }
}

proof fn lemma_steps_stay_within(
    c: ConsoleModel,
    saved: SavedModes,
    steps: Seq<InstallStep>,
    worked: Set<int>,
)
    requires
        c.holds(saved),
        forall|i: int|
            0 <= i < steps.len() ==> (#[trigger] steps[i] matches InstallStep::Call(call)
                ==> call_within(call, saved)),
    ensures
        c.after_steps(steps, worked).differs_within(c, saved),
    decreases steps.len(),
{
    if steps.len() > 0 {
        lemma_steps_stay_within(c, saved, steps.drop_last(), worked);
        let before = c.after_steps(steps.drop_last(), worked);
        assert(steps[steps.len() - 1] == steps.last());
        assert(c.after_steps(steps, worked).modes.dom() =~= c.modes.dom());
    }
}

proof fn lemma_put_back(c: ConsoleModel, d: ConsoleModel, saved: SavedModes)
    requires
        c.holds(saved),
        d.differs_within(c, saved),
    ensures
        d.after_calls(calls_to(saved)) == c,
{
    reveal_with_fuel(ConsoleModel::after_calls, 5);
    let calls = calls_to(saved);
    let input = match saved.input {
        Some((handle, mode)) => seq![ConsoleCall::SetInputMode { handle, mode }],
        None => seq![],
    };
    let output = match saved.output {
        Some((handle, mode)) => seq![ConsoleCall::SetOutputMode { handle, mode }],
        None => seq![],
    };
    let in_page = match saved.in_code_page {
        Some(page) => seq![ConsoleCall::SetInputCodePage(page)],
        None => seq![],
    };
    let out_page = match saved.out_code_page {
        Some(page) => seq![ConsoleCall::SetOutputCodePage(page)],
        None => seq![],
    };
    lemma_after_concat(d, input + output + in_page, out_page);
    lemma_after_concat(d, input + output, in_page);
    lemma_after_concat(d, input, output);
    let d1 = d.after_calls(input);
    let d2 = d1.after_calls(output);
    let d3 = d2.after_calls(in_page);
    assert(d2.modes =~= c.modes);
    assert(d3.after_calls(out_page) =~= c);
}

proof fn lemma_after_concat(c: ConsoleModel, a: Seq<ConsoleCall>, b: Seq<ConsoleCall>)
    ensures
        c.after_calls(a + b) == c.after_calls(a).after_calls(b),
    decreases b.len(),
{
    if b.len() == 0 {
        assert(a + b =~= a);
    } else {
        assert((a + b).drop_last() =~= a + b.drop_last());
        lemma_after_concat(c, a, b.drop_last());
    }
}

/// However far the switch to raw VT mode got, and whichever of its calls
/// failed, restoring sets the console to what it was before.
pub proof fn restore_undoes_install(c: ConsoleModel, r: ConsoleReadings, worked: Set<int>)
    requires
        c.holds(r.saved()),
    ensures
        r.has_console() ==> c.after_steps(install_steps(r), worked).after_calls(
            restore_calls(Some(r.saved())),
        ) == c,
        !r.has_console() ==> c.after_steps(install_steps(r), worked) == c,
{
    let steps = install_steps(r);
    if r.has_console() {
        assert forall|i: int| 0 <= i < steps.len() implies (#[trigger] steps[i] matches InstallStep::Call(
            call,
        ) ==> call_within(call, r.saved())) by {
        }
        lemma_steps_stay_within(c, r.saved(), steps, worked);
        lemma_put_back(c, c.after_steps(steps, worked), r.saved());
    } else {
        reveal_with_fuel(ConsoleModel::after_steps, 2);
    }
}

proof fn lemma_steps_concat(c: ConsoleModel, a: Seq<InstallStep>, b: Seq<InstallStep>)
    ensures
        c.after_steps(a + b, Set::full()) == c.after_steps(a, Set::full()).after_steps(
            b,
            Set::full(),
        ),
    decreases b.len(),
{
    if b.len() == 0 {
        assert(a + b =~= a);
    } else {
        assert((a + b).drop_last() =~= a + b.drop_last());
        lemma_steps_concat(c, a, b.drop_last());
    }
}

/// Where no step fails, the console ends up as the relay wants it: raw input,
/// VT output, and UTF-8 both ways. A handle can have one mode only, so this
/// leaves out that one handle is both input and output.
pub proof fn install_reaches_raw_mode(c: ConsoleModel, r: ConsoleReadings)
    requires
        r.has_console(),
        r.saved().input is Some && r.saved().output is Some ==> r.input_handle != r.output_handle,
    ensures
        c.after_steps(install_steps(r), Set::full()).holds(r.wanted()),
{
    reveal_with_fuel(ConsoleModel::after_steps, 3);
    let saved = r.saved();
    let handler = seq![InstallStep::SetCtrlHandler];
    let input = match saved.input {
        Some((handle, mode)) => seq![
            InstallStep::Call(ConsoleCall::SetInputMode { handle, mode: raw_input(mode) }),
        ],
        None => seq![],
    };
    let output = match saved.output {
        Some((handle, mode)) => (if mode & ENABLE_PROCESSED_OUTPUT == 0 {
            seq![InstallStep::WarnProcessedOutputOff]
        } else {
            seq![]
        }) + seq![InstallStep::Call(ConsoleCall::SetOutputMode { handle, mode: vt_output(mode) })],
        None => seq![],
    };
    let in_page = match saved.in_code_page {
        Some(_) => seq![InstallStep::Call(ConsoleCall::SetInputCodePage(UTF8_CODE_PAGE))],
        None => seq![],
    };
    let out_page = match saved.out_code_page {
        Some(_) => seq![InstallStep::Call(ConsoleCall::SetOutputCodePage(UTF8_CODE_PAGE))],
        None => seq![],
    };
    lemma_steps_concat(c, handler + input + output + in_page, out_page);
    lemma_steps_concat(c, handler + input + output, in_page);
    lemma_steps_concat(c, handler + input, output);
    lemma_steps_concat(c, handler, input);
}

/// Once the console is restored there is nothing left to restore, so no later
/// way out of the program touches it again.
pub proof fn restoring_twice_is_restoring_once(c: ConsoleModel, slot: Option<SavedModes>)
    ensures
        c.after_calls(restore_calls(slot)).after_calls(restore_calls(None)) == c.after_calls(
            restore_calls(slot),
        ),
{
}

/// What is said of the console is ASCII, so far as the system's words for an
/// error are: the console may still be set to another code page than UTF-8.
pub proof fn console_messages_are_ascii(step: InstallStep, error: Seq<char>)
    requires
        is_ascii_chars(error),
    ensures
        is_ascii_chars(NO_CONSOLE_MESSAGE@),
        is_ascii_chars(PROCESSED_OUTPUT_OFF_MESSAGE@),
        step_failure_text(step, error) matches Some(text) ==> is_ascii_chars(text),
{
    reveal_strlit(
        "termhost-bridge: no console attached to stdin/stdout - the terminal is relayed as raw bytes, escape sequences will NOT be interpreted",
    );
    reveal_strlit(
        "termhost-bridge: ENABLE_PROCESSED_OUTPUT is off - escape sequences may be printed literally",
    );
    reveal_strlit("termhost-bridge: SetConsoleCtrlHandler failed: ");
    reveal_strlit(" - Ctrl+Break or closing the window may leave the console in raw mode");
    reveal_strlit("termhost-bridge: SetConsoleMode(stdin) failed: ");
    reveal_strlit("termhost-bridge: SetConsoleMode(stdout) failed: ");
    reveal_strlit("termhost-bridge: SetConsoleCP(65001) failed: ");
    reveal_strlit("termhost-bridge: SetConsoleOutputCP(65001) failed: ");
}

/// The control handler is installed before the first change of the console.
pub proof fn handler_comes_first(r: ConsoleReadings, i: int)
    requires
        0 <= i < install_steps(r).len(),
        install_steps(r)[i] is Call,
    ensures
        i > 0,
        install_steps(r)[0] is SetCtrlHandler,
{
}

/// Which readings make a console: those of a handle that is neither null nor invalid
/// and whose mode could be read, on either side.
pub proof fn either_side_makes_a_console(r: ConsoleReadings)
    ensures
        r.has_console() <==> {
            ||| r.input_handle != 0 && r.input_handle != -1 && r.input_mode is Some
            ||| r.output_handle != 0 && r.output_handle != -1 && r.output_mode is Some
        },
        forall|h: isize| #[trigger] is_valid_handle(h) <==> h != 0 && h != -1,
{
}

/// Where no step fails, each setting that could be read ends up as the relay needs it,
/// whatever it was: the input raw, the output with VT processing, both code pages
/// UTF-8. What could not be read, and every other handle, stays as it is. If one handle
/// is both input and output, its mode is that of the output.
pub proof fn the_switch_reaches_every_setting(c: ConsoleModel, r: ConsoleReadings)
    ensures
        ({
            let input = r.input_handle != 0 && r.input_handle != -1 && r.input_mode is Some;
            let output = r.output_handle != 0 && r.output_handle != -1 && r.output_mode is Some;
            let after = c.after_steps(install_steps(r), Set::full());
            &&& output ==> after.modes.contains_key(r.output_handle)
            &&& output ==> after.modes[r.output_handle] == vt_output(r.output_mode->0)
            &&& input && !(output && r.input_handle == r.output_handle)
                ==> after.modes.contains_key(r.input_handle)
            &&& input && !(output && r.input_handle == r.output_handle)
                ==> after.modes[r.input_handle] == raw_input(r.input_mode->0)
            &&& (input || output) && r.in_code_page != 0 ==> after.in_code_page == 65001
            &&& !((input || output) && r.in_code_page != 0) ==> after.in_code_page
                == c.in_code_page
            &&& (input || output) && r.out_code_page != 0 ==> after.out_code_page == 65001
            &&& !((input || output) && r.out_code_page != 0) ==> after.out_code_page
                == c.out_code_page
            &&& forall|h: isize|
                !(input && h == r.input_handle) && !(output && h == r.output_handle) ==> {
                    &&& #[trigger] after.modes.contains_key(h) <==> c.modes.contains_key(h)
                    &&& after.modes[h] == c.modes[h]
                }
        }),
{
    reveal_with_fuel(ConsoleModel::after_steps, 3);
    if r.has_console() {
        let saved = r.saved();
        let handler = seq![InstallStep::SetCtrlHandler];
        let input = match saved.input {
            Some((handle, mode)) => seq![
                InstallStep::Call(ConsoleCall::SetInputMode { handle, mode: raw_input(mode) }),
            ],
            None => seq![],
        };
        let output = match saved.output {
            Some((handle, mode)) => (if mode & ENABLE_PROCESSED_OUTPUT == 0 {
                seq![InstallStep::WarnProcessedOutputOff]
            } else {
                seq![]
            }) + seq![
                InstallStep::Call(ConsoleCall::SetOutputMode { handle, mode: vt_output(mode) }),
            ],
            None => seq![],
        };
        let in_page = match saved.in_code_page {
            Some(_) => seq![InstallStep::Call(ConsoleCall::SetInputCodePage(UTF8_CODE_PAGE))],
            None => seq![],
        };
        let out_page = match saved.out_code_page {
            Some(_) => seq![InstallStep::Call(ConsoleCall::SetOutputCodePage(UTF8_CODE_PAGE))],
            None => seq![],
        };
        lemma_steps_concat(c, handler + input + output + in_page, out_page);
        lemma_steps_concat(c, handler + input + output, in_page);
        lemma_steps_concat(c, handler + input, output);
        lemma_steps_concat(c, handler, input);
    }
}

/// A console that is set to what was read of it is set to that again in the end, in
/// all that was read: whichever of the steps of the switch worked, restoring what the
/// switch saved leaves every mode and both code pages as they were.
pub proof fn the_console_is_put_back(c: ConsoleModel, r: ConsoleReadings, worked: Set<int>)
    requires
        r.input_handle != 0 && r.input_handle != -1 && r.input_mode is Some
            ==> c.modes.contains_key(r.input_handle) && c.modes[r.input_handle]
            == r.input_mode->0,
        r.output_handle != 0 && r.output_handle != -1 && r.output_mode is Some
            ==> c.modes.contains_key(r.output_handle) && c.modes[r.output_handle]
            == r.output_mode->0,
        r.in_code_page != 0 ==> c.in_code_page == r.in_code_page,
        r.out_code_page != 0 ==> c.out_code_page == r.out_code_page,
    ensures
        ({
            let after = c.after_steps(install_steps(r), worked);
            &&& r.has_console() ==> after.after_calls(restore_calls(Some(r.saved()))) == c
            &&& !r.has_console() ==> after == c
        }),
{
    restore_undoes_install(c, r, worked);
}

/// Restoring sets everything that is saved, and nothing else, whatever the console is
/// set to by then.
pub proof fn restoring_sets_what_is_saved(c: ConsoleModel, saved: SavedModes)
    requires
        saved.input is Some && saved.output is Some ==> (saved.input->0).0 != (saved.output->0).0,
    ensures
        ({
            let after = c.after_calls(restore_calls(Some(saved)));
            &&& saved.input matches Some((h, m)) ==> after.modes.contains_key(h)
                && after.modes[h] == m
            &&& saved.output matches Some((h, m)) ==> after.modes.contains_key(h)
                && after.modes[h] == m
            &&& after.in_code_page == match saved.in_code_page {
                Some(page) => page,
                None => c.in_code_page,
            }
            &&& after.out_code_page == match saved.out_code_page {
                Some(page) => page,
                None => c.out_code_page,
            }
            &&& forall|h: isize|
                {
                    ||| saved.input matches Some((i, _)) && i == h
                    ||| saved.output matches Some((o, _)) && o == h
                    ||| {
                        &&& #[trigger] after.modes.contains_key(h) <==> c.modes.contains_key(h)
                        &&& after.modes[h] == c.modes[h]
                    }
                }
        }),
{
    reveal_with_fuel(ConsoleModel::after_calls, 5);
    let input = match saved.input {
        Some((handle, mode)) => seq![ConsoleCall::SetInputMode { handle, mode }],
        None => seq![],
    };
    let output = match saved.output {
        Some((handle, mode)) => seq![ConsoleCall::SetOutputMode { handle, mode }],
        None => seq![],
    };
    let in_page = match saved.in_code_page {
        Some(page) => seq![ConsoleCall::SetInputCodePage(page)],
        None => seq![],
    };
    let out_page = match saved.out_code_page {
        Some(page) => seq![ConsoleCall::SetOutputCodePage(page)],
        None => seq![],
    };
    lemma_after_concat(c, input + output + in_page, out_page);
    lemma_after_concat(c, input + output, in_page);
    lemma_after_concat(c, input, output);
}

/// How many of five conditions hold.
pub open spec fn how_many(a: bool, b: bool, c: bool, d: bool, e: bool) -> int {
    (if a { 1int } else { 0 }) + (if b { 1int } else { 0 }) + (if c { 1int } else { 0 }) + (if d {
        1int
    } else {
        0
    }) + (if e { 1int } else { 0 })
}

/// On a console the handler is installed first, and no step is taken twice; elsewhere
/// the one step is to say that there is no console. That processed output is off is
/// said exactly where it was read to be off.
pub proof fn each_step_is_taken_once(r: ConsoleReadings)
    ensures
        ({
            let input = r.input_handle != 0 && r.input_handle != -1 && r.input_mode is Some;
            let output = r.output_handle != 0 && r.output_handle != -1 && r.output_mode is Some;
            let off = output && r.output_mode->0 & 1 == 0;
            let steps = install_steps(r);
            if input || output {
                &&& steps.len() == 1 + how_many(
                    input,
                    output,
                    off,
                    r.in_code_page != 0,
                    r.out_code_page != 0,
                )
                &&& steps[0] is SetCtrlHandler
                &&& !steps.contains(InstallStep::WarnNoConsole)
                &&& steps.contains(InstallStep::WarnProcessedOutputOff) <==> off
            } else {
                steps.len() == 1 && steps[0] is WarnNoConsole
            }
        }),
{
    let steps = install_steps(r);
    if let Some((_, mode)) = r.saved().output {
        if mode & ENABLE_PROCESSED_OUTPUT == 0 {
            let i = if r.saved().input is Some { 2int } else { 1 };
            assert(steps[i] is WarnProcessedOutputOff);
        }
    }
}

/// The control events after which the console is restored: Ctrl+C, Ctrl+Break, the
/// closing of the window, logging off and shutting down, and no other.
pub proof fn five_events_restore_the_console(ctrl_type: u32)
    ensures
        ends_the_program(ctrl_type) <==> ctrl_type == 0 || ctrl_type == 1 || ctrl_type == 2
            || ctrl_type == 5 || ctrl_type == 6,
{
}

/// The report of a step that failed names the call and ends with the system's words for
/// the error, whatever these are. That of the handler adds what may come of it.
pub proof fn failures_are_reported_in_full(handle: isize, mode: u32, page: u32, error: Seq<char>)
    ensures
        step_failure_text(
            InstallStep::Call(ConsoleCall::SetInputMode { handle, mode }),
            error,
        ) == Some("termhost-bridge: SetConsoleMode(stdin) failed: "@ + error),
        step_failure_text(
            InstallStep::Call(ConsoleCall::SetOutputMode { handle, mode }),
            error,
        ) == Some("termhost-bridge: SetConsoleMode(stdout) failed: "@ + error),
        step_failure_text(InstallStep::Call(ConsoleCall::SetInputCodePage(page)), error) == Some(
            "termhost-bridge: SetConsoleCP(65001) failed: "@ + error,
        ),
        step_failure_text(InstallStep::Call(ConsoleCall::SetOutputCodePage(page)), error) == Some(
            "termhost-bridge: SetConsoleOutputCP(65001) failed: "@ + error,
        ),
        step_failure_text(InstallStep::SetCtrlHandler, error) == Some(
            "termhost-bridge: SetConsoleCtrlHandler failed: "@ + error
                + " - Ctrl+Break or closing the window may leave the console in raw mode"@,
        ),
        step_failure_text(InstallStep::WarnNoConsole, error) is None,
        step_failure_text(InstallStep::WarnProcessedOutputOff, error) is None,
{
}

} // verus!
