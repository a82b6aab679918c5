//! The size of the console window, and how the terminal learns of it.
//!
//! The raw pipe carries bytes and nothing else. So the size goes another way: it
//! is claimed from the daemon, on a connection of its own, whenever the window
//! has a size that has not been claimed yet. The window is polled for it.

use crate::decimal::push_decimal;
use vstd::prelude::*;
use vstd::utf8::*;

verus! {

/// How long to wait between two looks at the window, in milliseconds.
pub const SIZE_POLL_INTERVAL_MS: u64 = 400;

/// How long to wait at most for the daemon's answer to a claim, in milliseconds.
pub const CLAIM_ACK_TIMEOUT_MS: u64 = 1000;

/// How long to wait between two looks for that answer, in milliseconds.
pub const CLAIM_ACK_POLL_INTERVAL_MS: u64 = 5;

/// The daemon's pipe for requests.
pub const DAEMON_PIPE: &'static str = "\\\\.\\pipe\\termhost-pty-v1";

/// `COORD`.
#[derive(Clone, Copy, Debug, PartialEq, Eq, Structural)]
pub struct Coord {
    pub x: i16,
    pub y: i16,
}

/// `SMALL_RECT`.
#[derive(Clone, Copy, Debug, PartialEq, Eq, Structural)]
pub struct SmallRect {
    pub left: i16,
    pub top: i16,
    pub right: i16,
    pub bottom: i16,
}

/// `CONSOLE_SCREEN_BUFFER_INFO`.
#[derive(Clone, Copy, Debug, PartialEq, Eq, Structural)]
pub struct ConsoleScreenBufferInfo {
    pub size: Coord,
    pub cursor_position: Coord,
    pub attributes: u16,
    pub window: SmallRect,
    pub maximum_window_size: Coord,
}

impl ConsoleScreenBufferInfo {
    /// The columns of the visible window.
    pub open spec fn window_cols(self) -> int {
        self.window.right - self.window.left + 1
    }

    /// The rows of the visible window.
    pub open spec fn window_rows(self) -> int {
        self.window.bottom - self.window.top + 1
    }

    /// The columns and rows that count: those of the visible window, for the
    /// buffer behind it may be much higher; those of the buffer only where
    /// there is no window to speak of.
    pub open spec fn shown_size(self) -> Option<(int, int)> {
        if self.window_cols() > 0 && self.window_rows() > 0 {
            Some((self.window_cols(), self.window_rows()))
        } else if self.size.x > 0 && self.size.y > 0 {
            Some((self.size.x as int, self.size.y as int))
        } else {
            None
        }
    }
}

/// A number of columns or rows as the 16 bits that hold it. Only a window that
/// is 65536 wide or high loses anything by that.
fn low_16_bits(n: i32) -> (r: u16)
    requires
        0 <= n <= 0x1_0000,
    ensures
        r == n % 0x1_0000,
{
    assert(0x1_0000i32 as u16 == 0) by (bit_vector);
    #[verifier::truncate]
    (n as u16)
}

/// The columns and rows of the window behind the standard output handle; `None`
/// if that is no console, of which `info` was asked in vain, or has no size.
pub fn console_size(handle: isize, info: Option<ConsoleScreenBufferInfo>) -> (size: Option<
    (u16, u16),
>)
    ensures
        size == match info {
            Some(i) => match i.shown_size() {
                Some((cols, rows)) => if crate::console::is_valid_handle(handle) {
                    Some(((cols % 0x1_0000) as u16, (rows % 0x1_0000) as u16))
                } else {
                    None
                },
                None => None,
            },
            None => None,
        },
{
    if !crate::console::valid(handle) {
        return None;
    }
    let info: ConsoleScreenBufferInfo = match info {
        Some(i) => i,
        None => return None,
    };
    let mut cols: i32 = info.window.right as i32 - info.window.left as i32 + 1;
    let mut rows: i32 = info.window.bottom as i32 - info.window.top as i32 + 1;
    if cols <= 0 || rows <= 0 {
        cols = info.size.x as i32;
        rows = info.size.y as i32;
    }
    if cols <= 0 || rows <= 0 {
        return None;
    }
    Some((low_16_bits(cols), low_16_bits(rows)))
}

/// What is asked of the daemon. `Text` holds text.
#[derive(Debug, PartialEq, Eq)]
pub enum DaemonRequest<Text = String> {
    /// Give a terminal another size.
    Resize { seq: u64, id: Text, cols: u16, rows: u16 },
}

impl View for DaemonRequest<String> {
    type V = DaemonRequest<Seq<char>>;

    open spec fn view(&self) -> DaemonRequest<Seq<char>> {
        match *self {
            DaemonRequest::Resize { seq, id, cols, rows } => DaemonRequest::Resize {
                seq,
                id: id@,
                cols,
                rows,
            },
        }
    }
}

/// The request that claims a size for a terminal. It is the first and only one
/// on its connection.
pub fn claim_size(id: &str, cols: u16, rows: u16) -> (request: DaemonRequest)
    ensures
        request@ == (DaemonRequest::Resize { seq: 1, id: id@, cols, rows }),
{
    DaemonRequest::Resize { seq: 1, id: id.to_owned(), cols, rows }
}

/// A claim that was tried: the size, and whether it was made.
#[derive(Clone, Copy, Debug, PartialEq, Eq)]
pub struct Claim {
    pub size: (u16, u16),
    pub made: bool,
}

/// What came of the last step of a claim.
#[derive(Clone, Copy, Debug, PartialEq, Eq)]
pub enum ClaimEvent {
    /// The request was `sent`: put into a frame, written to a new connection and
    /// flushed. Or one of these failed.
    Written { sent: bool },
    /// The pipe was looked at `elapsed_ms` after the request was sent: how many
    /// bytes wait in it, `None` if the look failed.
    Looked { peeked: Option<u32>, elapsed_ms: u64 },
    /// The wait is over.
    Waited,
    /// The answer was read, or could not be.
    AnswerRead,
}

/// What to do next for a claim.
#[derive(Clone, Copy, Debug, PartialEq, Eq)]
pub enum ClaimStep {
    /// Look at the pipe for the daemon's answer.
    Look,
    /// Wait for [`CLAIM_ACK_POLL_INTERVAL_MS`].
    Wait,
    /// Read the answer. Nobody looks at what it says.
    ReadAnswer,
    /// Close the connection: this is what became of the claim.
    End(Claim),
}

/// What to do next for a claim of `size`. The daemon resizes before it answers,
/// so a request that was sent makes the claim. The answer is only waited for, and
/// for a limited time, so that the daemon does not write to a closed connection.
pub open spec fn claim_step_after(size: (u16, u16), event: ClaimEvent) -> ClaimStep {
    match event {
        ClaimEvent::Written { sent } => if sent {
            ClaimStep::Look
        } else {
            ClaimStep::End(Claim { size, made: false })
        },
        ClaimEvent::Looked { peeked, elapsed_ms } => match peeked {
            None => ClaimStep::End(Claim { size, made: true }),
            Some(n) => if n > 0 {
                ClaimStep::ReadAnswer
            } else if elapsed_ms >= CLAIM_ACK_TIMEOUT_MS {
                ClaimStep::End(Claim { size, made: true })
            } else {
                ClaimStep::Wait
            },
        },
        ClaimEvent::Waited => ClaimStep::Look,
        ClaimEvent::AnswerRead => ClaimStep::End(Claim { size, made: true }),
    }
}

/// What to do next for a claim of `size`.
pub fn claim_step(size: (u16, u16), event: ClaimEvent) -> (step: ClaimStep)
    ensures
        step == claim_step_after(size, event),
{
    match event {
        ClaimEvent::Written { sent } => if sent {
            ClaimStep::Look
        } else {
            ClaimStep::End(Claim { size, made: false })
        },
        ClaimEvent::Looked { peeked, elapsed_ms } => match peeked {
            None => ClaimStep::End(Claim { size, made: true }),
            Some(n) => if n > 0 {
                ClaimStep::ReadAnswer
            } else if elapsed_ms >= CLAIM_ACK_TIMEOUT_MS {
                ClaimStep::End(Claim { size, made: true })
            } else {
                ClaimStep::Wait
            },
        },
        ClaimEvent::Waited => ClaimStep::Look,
        ClaimEvent::AnswerRead => ClaimStep::End(Claim { size, made: true }),
    }
}

/// `event` is what can come of `step`. Nothing comes after the end.
pub open spec fn comes_of(event: ClaimEvent, step: ClaimStep) -> bool {
    match step {
        ClaimStep::Look => event is Looked,
        ClaimStep::Wait => event is Waited,
        ClaimStep::ReadAnswer => event is AnswerRead,
        ClaimStep::End(_) => false,
    }
}

/// `events` is how one claim of `size` went, or began to go: the request was sent
/// or not, and each event after that came of the step that was due.
pub open spec fn course_of_claim(size: (u16, u16), events: Seq<ClaimEvent>) -> bool {
    &&& events.len() > 0
    &&& events[0] is Written
    &&& forall|i: int, j: int|
        0 <= i && j == i + 1 && j < events.len() ==> comes_of(
            #[trigger] events[j],
            claim_step_after(size, #[trigger] events[i]),
        )
}

/// A claim is made exactly if its request was sent, whatever happens to the answer:
/// that it comes, that it does not, or that the connection breaks. And a claim
/// whose request was not sent ends at once.
pub proof fn sent_claims_are_made(size: (u16, u16), events: Seq<ClaimEvent>)
    requires
        course_of_claim(size, events),
    ensures
        claim_step_after(size, events.last()) matches ClaimStep::End(claim) ==> claim == (Claim {
            size,
            made: events[0]->sent,
        }),
        !events[0]->sent ==> events.len() == 1,
{
    if events.len() > 1 {
        assert(comes_of(events[1], claim_step_after(size, events[0])));
        let last = events.len() - 1;
        assert(comes_of(events[last], claim_step_after(size, events[last - 1])));
    }
}

/// A daemon that does not answer holds a claim up for a limited time only: where
/// each wait takes at least its interval, no claim waits more than 200 times.
pub proof fn claim_wait_is_bounded(
    size: (u16, u16),
    peeked: Seq<Option<u32>>,
    elapsed_ms: Seq<u64>,
    looks: int,
)
    requires
        0 <= looks <= peeked.len(),
        peeked.len() == elapsed_ms.len(),
        forall|i: int, j: int|
            0 <= i && j == i + 1 && j < looks ==> #[trigger] elapsed_ms[j] >= #[trigger] elapsed_ms[i]
                + CLAIM_ACK_POLL_INTERVAL_MS,
        forall|i: int|
            0 <= i < looks ==> claim_step_after(
                size,
                ClaimEvent::Looked { peeked: peeked[i], elapsed_ms: #[trigger] elapsed_ms[i] },
            ) is Wait,
    ensures
        looks <= 200,
{
    if looks > 0 {
        lemma_time_passes(elapsed_ms, looks, looks - 1);
        assert(elapsed_ms[looks - 1] < CLAIM_ACK_TIMEOUT_MS);
    }
}

proof fn lemma_time_passes(elapsed_ms: Seq<u64>, looks: int, k: int)
    requires
        0 <= k < looks <= elapsed_ms.len(),
        forall|i: int, j: int|
            0 <= i && j == i + 1 && j < looks ==> #[trigger] elapsed_ms[j] >= #[trigger] elapsed_ms[i]
                + CLAIM_ACK_POLL_INTERVAL_MS,
    ensures
        elapsed_ms[k] >= k * CLAIM_ACK_POLL_INTERVAL_MS,
    decreases k,
{
    if k > 0 {
        lemma_time_passes(elapsed_ms, looks, k - 1);
        assert(elapsed_ms[k] >= elapsed_ms[k - 1] + CLAIM_ACK_POLL_INTERVAL_MS);
    }
}

/// The state of a [`SizePoller`].
pub struct PollerModel {
    /// The size that was claimed last, of those claims that were made.
    pub last: Option<(u16, u16)>,
    /// A claim has failed, and was reported, since one was made last.
    pub warned: bool,
}

impl PollerModel {
    /// The state in which polling starts.
    pub open spec fn start() -> PollerModel {
        PollerModel { last: None, warned: false }
    }

    /// The size to claim when the window shows `measured`.
    pub open spec fn to_claim(self, measured: Option<(u16, u16)>) -> Option<(u16, u16)> {
        if measured is Some && measured != self.last {
            measured
        } else {
            None
        }
    }

    /// The state after a claim was tried.
    pub open spec fn after(self, claim: Claim) -> PollerModel {
        if claim.made {
            PollerModel { last: Some(claim.size), warned: false }
        } else {
            PollerModel { last: self.last, warned: true }
        }
    }

    /// The state after several claims were tried.
    pub open spec fn after_all(self, claims: Seq<Claim>) -> PollerModel
        decreases claims.len(),
    {
        if claims.len() == 0 {
            self
        } else {
            self.after_all(claims.drop_last()).after(claims.last())
        }
    }
}

/// The decisions of the loop that polls the window. It is the only one that
/// claims a size, the first one included, so nothing else ever waits for a claim.
pub struct SizePoller {
    last: Option<(u16, u16)>,
    warned: bool,
}

impl View for SizePoller {
    type V = PollerModel;

    closed spec fn view(&self) -> PollerModel {
        PollerModel { last: self.last, warned: self.warned }
    }
}

impl SizePoller {
    /// A poller that has not claimed anything.
    pub fn new() -> (poller: SizePoller)
        ensures
            poller@ == PollerModel::start(),
    {
        SizePoller { last: None, warned: false }
    }

    /// The size to claim when the window shows `measured`: none if there is
    /// none, or if it is the one that was claimed last.
    pub fn poll_size(&self, measured: Option<(u16, u16)>) -> (claim: Option<(u16, u16)>)
        ensures
            claim == self@.to_claim(measured),
    {
        match measured {
            None => None,
            Some((cols, rows)) => {
                let known: bool = match self.last {
                    Some((c, r)) => c == cols && r == rows,
                    None => false,
                };
                if known {
                    None
                } else {
                    Some((cols, rows))
                }
            },
        }
    }

    /// Takes note of a claim that was tried. Tells whether its failure is to be
    /// reported: only the first one is, until a claim is made again.
    pub fn claimed(&mut self, claim: Claim) -> (report: bool)
        ensures
            final(self)@ == old(self)@.after(claim),
            report == (!claim.made && !old(self)@.warned),
    {
        if claim.made {
            self.last = Some(claim.size);
            self.warned = false;
            false
        } else {
            let report: bool = !self.warned;
            self.warned = true;
            report
        }
    }
}

/// The line that reports a claim that failed.
pub open spec fn claim_failure_text(size: (u16, u16), id: Seq<char>, error: Seq<char>) -> Seq<char> {
    "termhost-bridge: could not claim ("@ + crate::decimal::decimal(size.0 as nat) + ", "@
        + crate::decimal::decimal(size.1 as nat) + ") for "@ + id + ": "@ + error
}

/// The line that reports a claim that failed.
pub fn claim_failure(size: (u16, u16), id: &str, error: &str) -> (line: String)
    ensures
        line@ == claim_failure_text(size, id@, error@),
{
    let mut line: String = "termhost-bridge: could not claim (".to_owned();
    push_decimal(&mut line, size.0 as u64);
    line.append(", ");
    push_decimal(&mut line, size.1 as u64);
    line.append(") for ");
    line.append(id);
    line.append(": ");
    line.append(error);
    line
}

/// The report of a claim that failed is ASCII, so far as the id and the system's
/// words for the error are.
pub proof fn claim_reports_are_ascii(size: (u16, u16), id: Seq<char>, error: Seq<char>)
    requires
        is_ascii_chars(id),
        is_ascii_chars(error),
    ensures
        is_ascii_chars(claim_failure_text(size, id, error)),
{
    reveal_strlit("termhost-bridge: could not claim (");
    reveal_strlit(", ");
    reveal_strlit(") for ");
    reveal_strlit(": ");
    crate::decimal::decimals_are_ascii(size.0 as nat);
    crate::decimal::decimals_are_ascii(size.1 as nat);
}

/// The position after the last claim in `claims` that was made; 0 if none was.
pub open spec fn end_of_last_made(claims: Seq<Claim>) -> int
    decreases claims.len(),
{
    if claims.len() == 0 {
        0
    } else if claims.last().made {
        claims.len() as int
    } else {
        end_of_last_made(claims.drop_last())
    }
}

/// The poller remembers the size of the last claim that was made, whatever
/// failed after it, and that something failed after it.
pub proof fn poller_remembers_the_last_claim_made(claims: Seq<Claim>)
    ensures
        0 <= end_of_last_made(claims) <= claims.len(),
        PollerModel::start().after_all(claims).last == if end_of_last_made(claims) > 0 {
            Some(claims[end_of_last_made(claims) - 1].size)
        } else {
            None
        },
        PollerModel::start().after_all(claims).warned == (end_of_last_made(claims) < claims.len()),
    decreases claims.len(),
{
    if claims.len() > 0 {
        poller_remembers_the_last_claim_made(claims.drop_last());
        let end = end_of_last_made(claims.drop_last());
        if end > 0 {
            assert(claims.drop_last()[end - 1] == claims[end - 1]);
        }
    }
}

/// A size whose claim failed is claimed again at the next look; one whose claim
/// was made is not.
pub proof fn failed_claims_are_tried_again(m: PollerModel, size: (u16, u16))
    requires
        m.to_claim(Some(size)) == Some(size),
    ensures
        m.after(Claim { size, made: false }).to_claim(Some(size)) == Some(size),
        m.after(Claim { size, made: true }).to_claim(Some(size)) is None,
{
}

/// After any claims, a size that differs in its columns or in its rows from that of
/// claim number `k`, the last one that was made, is the size to claim; that size itself
/// is not claimed again, and neither is anything where there is no size.
pub proof fn every_change_of_size_is_claimed(claims: Seq<Claim>, k: int, cols: u16, rows: u16)
    requires
        0 <= k < claims.len(),
        claims[k].made,
        forall|i: int| k < i < claims.len() ==> !(#[trigger] claims[i]).made,
    ensures
        ({
            let m = PollerModel::start().after_all(claims);
            let other = claims[k].size.0 != cols || claims[k].size.1 != rows;
            &&& other ==> m.to_claim(Some((cols, rows))) == Some((cols, rows))
            &&& !other ==> m.to_claim(Some((cols, rows))) is None
            &&& m.to_claim(None) is None
            &&& m.warned <==> k < claims.len() - 1
        }),
{
    lemma_last_made(claims, k);
    poller_remembers_the_last_claim_made(claims);
}

/// As long as no claim was made, every size there is is the size to claim.
pub proof fn the_first_size_is_claimed(claims: Seq<Claim>, cols: u16, rows: u16)
    requires
        forall|i: int| 0 <= i < claims.len() ==> !(#[trigger] claims[i]).made,
    ensures
        ({
            let m = PollerModel::start().after_all(claims);
            &&& m.to_claim(Some((cols, rows))) == Some((cols, rows))
            &&& m.to_claim(None) is None
            &&& m.warned <==> claims.len() > 0
        }),
{
    lemma_last_made(claims, -1);
    poller_remembers_the_last_claim_made(claims);
}

proof fn lemma_last_made(claims: Seq<Claim>, k: int)
    requires
        -1 <= k < claims.len(),
        k >= 0 ==> claims[k].made,
        forall|i: int| k < i < claims.len() ==> !(#[trigger] claims[i]).made,
    ensures
        end_of_last_made(claims) == k + 1,
    decreases claims.len(),
{
    if claims.len() > 0 && k < claims.len() - 1 {
        assert(!claims[claims.len() - 1].made);
        lemma_last_made(claims.drop_last(), k);
    }
}

/// The size that counts is that of the visible window, both edges included, wherever
/// the window stands in the buffer and however large that is. Without a window it is
/// that of the buffer, and without a buffer there is none.
pub proof fn the_visible_window_counts(info: ConsoleScreenBufferInfo)
    ensures
        ({
            let w = info.window;
            let size = info.shown_size();
            if w.left <= w.right && w.top <= w.bottom {
                size == Some((w.right - w.left + 1, w.bottom - w.top + 1))
            } else if info.size.x > 0 && info.size.y > 0 {
                size == Some((info.size.x as int, info.size.y as int))
            } else {
                size is None
            }
        }),
{
}

/// The answer to a claim of any size is looked for once the request is sent, and read
/// when it is there, however late. It is waited for until a second has passed, and not
/// longer; and nothing is looked for where the connection is broken.
pub proof fn the_answer_is_given_a_second(size: (u16, u16), n: u32, elapsed_ms: u64)
    ensures
        claim_step_after(size, ClaimEvent::Written { sent: true }) is Look,
        claim_step_after(size, ClaimEvent::Waited) is Look,
        n > 0 ==> claim_step_after(
            size,
            (ClaimEvent::Looked { peeked: Some(n), elapsed_ms }),
        ) is ReadAnswer,
        elapsed_ms < 1000 ==> claim_step_after(
            size,
            (ClaimEvent::Looked { peeked: Some(0), elapsed_ms }),
        ) is Wait,
        elapsed_ms >= 1000 ==> claim_step_after(
            size,
            (ClaimEvent::Looked { peeked: Some(0), elapsed_ms }),
        ) is End,
        claim_step_after(size, (ClaimEvent::Looked { peeked: None, elapsed_ms })) is End,
        claim_step_after(size, ClaimEvent::AnswerRead) is End,
{
}

/// The view of a request is that request, with all that it says.
pub proof fn daemon_requests_are_seen_whole(request: DaemonRequest<String>)
    ensures
        request@->seq == request->seq,
        request@->id == request->id@,
        request@->cols == request->cols,
        request@->rows == request->rows,
{
}

/// The report of a claim that failed names the size, the terminal and the system's
/// words for the error, each of them in full.
pub proof fn claim_reports_say_it_all(cols: u16, rows: u16, id: Seq<char>, error: Seq<char>)
    ensures
        claim_failure_text((cols, rows), id, error) == "termhost-bridge: could not claim ("@
            + crate::decimal::decimal(cols as nat) + ", "@ + crate::decimal::decimal(rows as nat)
            + ") for "@ + id + ": "@ + error,
{
}

} // verus!
