//! The relay between a console window and a terminal's raw pipe.
//!
//! Reads and writes on one synchronous pipe handle wait for each other: a read
//! that blocks holds up every write behind it. So a single loop owns the pipe,
//! and it reads only after a peek has said that there is something to read.
//! [`Pump`] is that loop's decisions. The loop itself performs the action it is
//! given, and reports what came of it as the next event.
//!
//! Output goes to the console in whole characters: what a chunk cuts in two
//! stays in the pump and is written in front of the next chunk.

use crate::utf8_prefix::complete_utf8_prefix;
use vstd::prelude::*;
use vstd::slice::{slice_subrange, slice_to_vec};
use vstd::utf8::*;

verus! {

/// The size of the buffer that output is read into, held-back bytes included.
pub const PUMP_BUFFER_SIZE: usize = 8192;

/// How long the pump sleeps when there is nothing to do, in milliseconds.
pub const PIPE_POLL_INTERVAL_MS: u64 = 5;

/// What the loop around the pump has to report. `B` holds bytes.
#[derive(Debug, PartialEq, Eq)]
pub enum PumpEvent<B> {
    /// The relay starts, a sleep is over, or output has been written and flushed.
    Resumed,
    /// The keyboard gave a chunk.
    Keys(B),
    /// A chunk of keyboard input was written to the pipe.
    KeysSent,
    /// The keyboard has nothing to give now.
    NoKeys,
    /// The keyboard will not give anything any more.
    KeysClosed,
    /// The pipe was peeked: how many bytes wait in it, `None` if the peek failed.
    Peeked(Option<u32>),
    /// The pipe was read.
    Read(B),
}

/// What the loop around the pump has to do next.
#[derive(Debug, PartialEq, Eq)]
pub enum PumpAction<B> {
    /// Ask the keyboard for a chunk, without waiting for one.
    PollKeys,
    /// Write keyboard input to the pipe and flush it.
    Send(B),
    /// Ask how much waits in the pipe.
    Peek,
    /// Read from the pipe, at most `room` bytes.
    Read { room: usize },
    /// Write output to the console and flush it.
    Show(B),
    /// Sleep for [`PIPE_POLL_INTERVAL_MS`].
    Sleep,
    /// The relay is over; `flush` the console first where it says so.
    Finish { flush: bool },
    /// The other side closed the pipe: the relay ends with the system's last error.
    Broken,
}

impl View for PumpEvent<Vec<u8>> {
    type V = PumpEvent<Seq<u8>>;

    open spec fn view(&self) -> PumpEvent<Seq<u8>> {
        match *self {
            PumpEvent::Resumed => PumpEvent::Resumed,
            PumpEvent::Keys(b) => PumpEvent::Keys(b@),
            PumpEvent::KeysSent => PumpEvent::KeysSent,
            PumpEvent::NoKeys => PumpEvent::NoKeys,
            PumpEvent::KeysClosed => PumpEvent::KeysClosed,
            PumpEvent::Peeked(n) => PumpEvent::Peeked(n),
            PumpEvent::Read(b) => PumpEvent::Read(b@),
        }
    }
}

impl View for PumpAction<Vec<u8>> {
    type V = PumpAction<Seq<u8>>;

    open spec fn view(&self) -> PumpAction<Seq<u8>> {
        match *self {
            PumpAction::PollKeys => PumpAction::PollKeys,
            PumpAction::Send(b) => PumpAction::Send(b@),
            PumpAction::Peek => PumpAction::Peek,
            PumpAction::Read { room } => PumpAction::Read { room },
            PumpAction::Show(b) => PumpAction::Show(b@),
            PumpAction::Sleep => PumpAction::Sleep,
            PumpAction::Finish { flush } => PumpAction::Finish { flush },
            PumpAction::Broken => PumpAction::Broken,
        }
    }
}

/// The state of a [`Pump`].
pub struct PumpModel {
    /// Bytes that were read and not yet written: a character cut in two.
    pub pending: Seq<u8>,
    /// Whether the keyboard may still give something.
    pub stdin_open: bool,
}

impl PumpModel {
    /// The state in which a relay starts.
    pub open spec fn start() -> PumpModel {
        PumpModel { pending: Seq::empty(), stdin_open: true }
    }

    /// No more is held back than a character can have in front of its last byte.
    pub open spec fn wf(self) -> bool {
        self.pending.len() <= 3
    }

    /// The state that follows `ev`, and the action that answers it.
    pub open spec fn step(self, ev: PumpEvent<Seq<u8>>) -> (PumpModel, PumpAction<Seq<u8>>) {
        match ev {
            PumpEvent::Resumed => (
                self,
                if self.stdin_open {
                    PumpAction::PollKeys
                } else {
                    PumpAction::Peek
                },
            ),
            PumpEvent::Keys(b) => (self, PumpAction::Send(b)),
            PumpEvent::KeysSent => (self, PumpAction::PollKeys),
            PumpEvent::NoKeys => (self, PumpAction::Peek),
            PumpEvent::KeysClosed => (
                PumpModel { stdin_open: false, ..self },
                PumpAction::Peek,
            ),
            PumpEvent::Peeked(None) => (self, PumpAction::Broken),
            PumpEvent::Peeked(Some(n)) => (
                self,
                if n > 0 {
                    PumpAction::Read { room: (PUMP_BUFFER_SIZE - self.pending.len()) as usize }
                } else if self.stdin_open {
                    PumpAction::Sleep
                } else {
                    PumpAction::Finish { flush: true }
                },
            ),
            PumpEvent::Read(b) => if b.len() == 0 {
                (self, PumpAction::Finish { flush: false })
            } else {
                let all = self.pending + b;
                let safe = crate::utf8_prefix::complete_len(all);
                (PumpModel { pending: all.skip(safe), ..self }, PumpAction::Show(all.take(safe)))
            },
        }
    }

    /// The state after `events`, and the actions that answered them.
    pub open spec fn run(self, events: Seq<PumpEvent<Seq<u8>>>) -> (
        PumpModel,
        Seq<PumpAction<Seq<u8>>>,
    )
        decreases events.len(),
    {
        if events.len() == 0 {
            (self, Seq::empty())
        } else {
            let (before, actions) = self.run(events.drop_last());
            let (after, action) = before.step(events.last());
            (after, actions.push(action))
        }
    }
}

/// The bytes that `events` report as read from the pipe, in their order.
pub open spec fn bytes_read(events: Seq<PumpEvent<Seq<u8>>>) -> Seq<u8>
    decreases events.len(),
{
    if events.len() == 0 {
        Seq::empty()
    } else {
        bytes_read(events.drop_last()) + match events.last() {
            PumpEvent::Read(b) => b,
            _ => Seq::empty(),
        }
    }
}

/// The bytes that `events` report as typed, in their order.
pub open spec fn bytes_typed(events: Seq<PumpEvent<Seq<u8>>>) -> Seq<u8>
    decreases events.len(),
{
    if events.len() == 0 {
        Seq::empty()
    } else {
        bytes_typed(events.drop_last()) + match events.last() {
            PumpEvent::Keys(b) => b,
            _ => Seq::empty(),
        }
    }
}

/// The bytes that `actions` write to the console, in their order.
pub open spec fn bytes_shown(actions: Seq<PumpAction<Seq<u8>>>) -> Seq<u8>
    decreases actions.len(),
{
    if actions.len() == 0 {
        Seq::empty()
    } else {
        bytes_shown(actions.drop_last()) + match actions.last() {
            PumpAction::Show(b) => b,
            _ => Seq::empty(),
        }
    }
}

/// The bytes that `actions` write to the pipe, in their order.
pub open spec fn bytes_sent(actions: Seq<PumpAction<Seq<u8>>>) -> Seq<u8>
    decreases actions.len(),
{
    if actions.len() == 0 {
        Seq::empty()
    } else {
        bytes_sent(actions.drop_last()) + match actions.last() {
            PumpAction::Send(b) => b,
            _ => Seq::empty(),
        }
    }
}

/// The decisions of the loop that owns the pipe.
pub struct Pump {
    pending: Vec<u8>,
    stdin_open: bool,
}

impl View for Pump {
    type V = PumpModel;

    closed spec fn view(&self) -> PumpModel {
        PumpModel { pending: self.pending@, stdin_open: self.stdin_open }
    }
}

impl Pump {
    #[verifier::type_invariant]
    spec fn holds_back_little(&self) -> bool {
        self.pending@.len() <= 3
    }

    /// A relay that has not moved a byte yet.
    pub fn new() -> (pump: Pump)
        ensures
            pump@ == PumpModel::start(),
            pump@.wf(),
    {
        let pump = Pump { pending: Vec::new(), stdin_open: true };
        assert(pump@.pending =~= Seq::empty());
        pump
    }

    /// What to do after `ev`.
    pub fn next(&mut self, ev: PumpEvent<Vec<u8>>) -> (action: PumpAction<Vec<u8>>)
        ensures
            (final(self)@, action@) == old(self)@.step(ev@),
            final(self)@.wf(),
    {
        proof {
            use_type_invariant(&*self);
        }
        match ev {
            PumpEvent::Resumed => if self.stdin_open {
                PumpAction::PollKeys
            } else {
                PumpAction::Peek
            },
            PumpEvent::Keys(b) => PumpAction::Send(b),
            PumpEvent::KeysSent => PumpAction::PollKeys,
            PumpEvent::NoKeys => PumpAction::Peek,
            PumpEvent::KeysClosed => {
                self.stdin_open = false;
                PumpAction::Peek
            },
            PumpEvent::Peeked(None) => PumpAction::Broken,
            PumpEvent::Peeked(Some(n)) => if n > 0 {
                PumpAction::Read { room: PUMP_BUFFER_SIZE - self.pending.len() }
            } else if self.stdin_open {
                PumpAction::Sleep
            } else {
                PumpAction::Finish { flush: true }
            },
            PumpEvent::Read(b) => if b.len() == 0 {
                PumpAction::Finish { flush: false }
            } else {
                let mut chunk = b;
                let mut all: Vec<u8> = Vec::new();
                std::mem::swap(&mut all, &mut self.pending);
                all.append(&mut chunk);
                assert(all@ =~= old(self)@.pending + b@);
                let safe: usize = complete_utf8_prefix(all.as_slice(), all.len());
                assert(all@.take(all@.len() as int) =~= all@);
                self.pending = all.split_off(safe);
                PumpAction::Show(all)
            },
        }
    }
}

/// Nothing is lost and nothing is written twice: what was written to the
/// console, followed by what is held back, is what was read from the pipe.
/// And never more than three bytes are held back.
pub proof fn output_is_kept_whole(events: Seq<PumpEvent<Seq<u8>>>)
    ensures
        ({
            let (state, actions) = PumpModel::start().run(events);
            &&& bytes_shown(actions) + state.pending == bytes_read(events)
            &&& state.wf()
        }),
    decreases events.len(),
{
    let (state, actions) = PumpModel::start().run(events);
    if events.len() > 0 {
        output_is_kept_whole(events.drop_last());
        let (before, earlier) = PumpModel::start().run(events.drop_last());
        assert(actions.drop_last() =~= earlier);
        match events.last() {
            PumpEvent::Read(b) => {
                let all = before.pending + b;
                crate::utf8_prefix::little_is_held_back(all);
                assert(bytes_shown(actions) + state.pending =~= bytes_read(events));
            },
            _ => {
                assert(bytes_shown(actions) =~= bytes_shown(earlier));
                assert(bytes_read(events) =~= bytes_read(events.drop_last()));
            },
        }
    }
}

/// As long as the terminal's output is UTF-8 text, every single write to the
/// console is UTF-8 text of its own, wherever the pipe's chunks cut it.
pub proof fn every_write_is_text(events: Seq<PumpEvent<Seq<u8>>>, text: Seq<u8>, i: int)
    requires
        valid_utf8(text),
        bytes_read(events).is_prefix_of(text),
        0 <= i < events.len(),
    ensures
        PumpModel::start().run(events).1[i] matches PumpAction::Show(b) ==> valid_utf8(b),
    decreases events.len(),
{
    let actions = PumpModel::start().run(events).1;
    let (before, earlier) = PumpModel::start().run(events.drop_last());
    lemma_run_len(events.drop_last());
    assert(bytes_read(events.drop_last()).is_prefix_of(bytes_read(events)));
    if i < events.len() - 1 {
        every_write_is_text(events.drop_last(), text, i);
    } else if let PumpEvent::Read(b) = events.last() {
        lemma_shown_ends_at_boundary(events.drop_last(), text);
        output_is_kept_whole(events.drop_last());
        let done = bytes_shown(earlier).len() as int;
        let all = before.pending + b;
        assert(bytes_read(events) =~= bytes_shown(earlier) + all);
        lemma_rest_of_text(bytes_shown(earlier), all, text);
        crate::utf8_prefix::cut_text_keeps_whole_characters(text.skip(done), all.len() as int);
        let safe = crate::utf8_prefix::complete_len(all);
        assert(all.take(safe) =~= text.skip(done).take(safe));
    }
}

/// What follows `done` in a beginning of `text` follows it in `text`.
proof fn lemma_rest_of_text(done: Seq<u8>, rest: Seq<u8>, text: Seq<u8>)
    requires
        (done + rest).is_prefix_of(text),
    ensures
        done.len() + rest.len() <= text.len(),
        text.skip(done.len() as int).take(rest.len() as int) == rest,
{
    let all = done + rest;
    let start = text.subrange(0, all.len() as int);
    assert forall|k: int| 0 <= k < rest.len() implies text[done.len() + k] == #[trigger] rest[k] by {
        assert(start[done.len() + k] == all[done.len() + k]);
    }
    assert(text.skip(done.len() as int).take(rest.len() as int) =~= rest);
}

/// One action answers each event.
proof fn lemma_run_len(events: Seq<PumpEvent<Seq<u8>>>)
    ensures
        PumpModel::start().run(events).1.len() == events.len(),
    decreases events.len(),
{
    if events.len() > 0 {
        lemma_run_len(events.drop_last());
    }
}

/// What was written so far ends between two characters of the text.
proof fn lemma_shown_ends_at_boundary(events: Seq<PumpEvent<Seq<u8>>>, text: Seq<u8>)
    requires
        valid_utf8(text),
        bytes_read(events).is_prefix_of(text),
    ensures
        ({
            let shown = bytes_shown(PumpModel::start().run(events).1);
            &&& shown.len() <= text.len()
            &&& valid_utf8(text.skip(shown.len() as int))
        }),
    decreases events.len(),
{
    let (state, actions) = PumpModel::start().run(events);
    if events.len() == 0 {
        assert(text.skip(0) =~= text);
    } else {
        assert(bytes_read(events.drop_last()).is_prefix_of(bytes_read(events)));
        lemma_shown_ends_at_boundary(events.drop_last(), text);
        output_is_kept_whole(events.drop_last());
        let (before, earlier) = PumpModel::start().run(events.drop_last());
        assert(actions.drop_last() =~= earlier);
        let done = bytes_shown(earlier).len() as int;
        match events.last() {
            PumpEvent::Read(b) => {
                let all = before.pending + b;
                assert(bytes_read(events) =~= bytes_shown(earlier) + all);
                lemma_rest_of_text(bytes_shown(earlier), all, text);
                crate::utf8_prefix::cut_text_keeps_whole_characters(text.skip(done), all.len() as int);
                let safe = crate::utf8_prefix::complete_len(all);
                if b.len() > 0 {
                    assert(text.skip(done).skip(safe) =~= text.skip(done + safe));
                }
            },
            _ => {},
        }
    }
}

/// Once the output that was read ends between two characters, all of it has been
/// written: nothing waits for a byte that may never come.
pub proof fn finished_text_is_shown(events: Seq<PumpEvent<Seq<u8>>>)
    requires
        valid_utf8(bytes_read(events)),
    ensures
        PumpModel::start().run(events).0.pending.len() == 0,
        bytes_shown(PumpModel::start().run(events).1) == bytes_read(events),
    decreases events.len(),
{
    let text = bytes_read(events);
    let (state, actions) = PumpModel::start().run(events);
    if events.len() > 0 {
        let (before, earlier) = PumpModel::start().run(events.drop_last());
        assert(actions.drop_last() =~= earlier);
        match events.last() {
            PumpEvent::Read(b) if b.len() > 0 => {
                assert(bytes_read(events.drop_last()).is_prefix_of(text));
                lemma_shown_ends_at_boundary(events.drop_last(), text);
                output_is_kept_whole(events.drop_last());
                let done = bytes_shown(earlier).len() as int;
                let all = before.pending + b;
                assert(text =~= bytes_shown(earlier) + all);
                assert(text.skip(done) =~= all);
                assert(all.take(all.len() as int) =~= all);
                crate::utf8_prefix::cut_text_keeps_whole_characters(all, all.len() as int);
                is_char_boundary_start_end_of_seq(all);
            },
            _ => {
                assert(bytes_read(events.drop_last()) =~= text);
                finished_text_is_shown(events.drop_last());
            },
        }
    }
    output_is_kept_whole(events);
    assert(bytes_shown(actions) =~= bytes_shown(actions) + state.pending);
}

/// What was written to the console is all that was read, up to the sequence that
/// its end cuts in two, if there is one. So no byte is late, whatever the bytes
/// are and however they were cut into chunks.
pub proof fn output_is_shown_at_once(events: Seq<PumpEvent<Seq<u8>>>)
    ensures
        bytes_shown(PumpModel::start().run(events).1) == bytes_read(events).take(
            crate::utf8_prefix::complete_len(bytes_read(events)),
        ),
    decreases events.len(),
{
    let read = bytes_read(events);
    let (state, actions) = PumpModel::start().run(events);
    output_is_kept_whole(events);
    if events.len() == 0 {
        crate::utf8_prefix::little_is_held_back(read);
    } else {
        let earlier_read = bytes_read(events.drop_last());
        let (before, earlier) = PumpModel::start().run(events.drop_last());
        let done = crate::utf8_prefix::complete_len(earlier_read);
        assert(actions.drop_last() =~= earlier);
        output_is_shown_at_once(events.drop_last());
        output_is_kept_whole(events.drop_last());
        crate::utf8_prefix::little_is_held_back(earlier_read);
        assert(before.pending =~= earlier_read.skip(done));
        match events.last() {
            PumpEvent::Read(b) if b.len() > 0 => {
                crate::utf8_prefix::chunks_are_cut_as_the_whole(earlier_read, b);
                crate::utf8_prefix::little_is_held_back(before.pending + b);
                crate::utf8_prefix::little_is_held_back(read);
            },
            _ => {
                assert(read =~= earlier_read);
                assert(bytes_shown(actions) =~= bytes_shown(earlier));
            },
        }
    }
    crate::utf8_prefix::little_is_held_back(read);
    assert(bytes_shown(actions) =~= read.take(crate::utf8_prefix::complete_len(read)));
}

/// Everything that was typed goes to the pipe, in order.
pub proof fn input_is_kept_whole(events: Seq<PumpEvent<Seq<u8>>>)
    ensures
        bytes_sent(PumpModel::start().run(events).1) == bytes_typed(events),
    decreases events.len(),
{
    if events.len() > 0 {
        input_is_kept_whole(events.drop_last());
        let actions = PumpModel::start().run(events).1;
        assert(actions.drop_last() =~= PumpModel::start().run(events.drop_last()).1);
    }
}

/// The pipe is read only when a peek has just found bytes in it, so a read
/// never waits, and never makes a write wait.
pub proof fn no_read_can_block(m: PumpModel, ev: PumpEvent<Seq<u8>>)
    requires
        m.step(ev).1 is Read,
    ensures
        ev matches PumpEvent::Peeked(Some(n)) && n > 0,
        m.wf() ==> m.step(ev).1->room >= PUMP_BUFFER_SIZE - 3,
{
}

/// The relay ends in three ways only: the peek failed, the pipe is at its end,
/// or the keyboard is closed and the pipe has nothing left to show.
pub proof fn how_a_relay_ends(m: PumpModel, ev: PumpEvent<Seq<u8>>)
    ensures
        m.step(ev).1 is Broken <==> ev == PumpEvent::<Seq<u8>>::Peeked(None),
        m.step(ev).1 is Finish <==> {
            ||| ev matches PumpEvent::Read(b) && b.len() == 0
            ||| ev == PumpEvent::<Seq<u8>>::Peeked(Some(0)) && !m.stdin_open
        },
{
}

/// What reading the keyboard gave.
#[derive(Debug, PartialEq, Eq)]
pub enum StdinRead {
    /// So many bytes, at the front of the buffer.
    Bytes(usize),
    /// The read was interrupted before it gave anything.
    Interrupted,
    /// The read failed otherwise.
    Failed,
}

/// What the keyboard thread does next. `B` holds bytes.
#[derive(Debug, PartialEq, Eq)]
pub enum StdinAction<B> {
    /// Hand the bytes to the pump.
    Forward(B),
    /// Read again.
    Retry,
    /// The keyboard is at its end.
    Stop,
}

impl View for StdinAction<Vec<u8>> {
    type V = StdinAction<Seq<u8>>;

    open spec fn view(&self) -> StdinAction<Seq<u8>> {
        match *self {
            StdinAction::Forward(b) => StdinAction::Forward(b@),
            StdinAction::Retry => StdinAction::Retry,
            StdinAction::Stop => StdinAction::Stop,
        }
    }
}

/// What follows a read into `buf` that gave `outcome`.
pub open spec fn after_read(buf: Seq<u8>, outcome: StdinRead) -> StdinAction<Seq<u8>> {
    match outcome {
        StdinRead::Bytes(n) => if n == 0 {
            StdinAction::Stop
        } else {
            StdinAction::Forward(buf.take(n as int))
        },
        StdinRead::Interrupted => StdinAction::Retry,
        StdinRead::Failed => StdinAction::Stop,
    }
}

/// What the keyboard thread does after a read into `buf` that gave `outcome`.
pub fn read_stdin(buf: &[u8], outcome: StdinRead) -> (action: StdinAction<Vec<u8>>)
    requires
        outcome matches StdinRead::Bytes(n) ==> n <= buf@.len(),
    ensures
        action@ == after_read(buf@, outcome),
{
    match outcome {
        StdinRead::Bytes(n) => if n == 0 {
            StdinAction::Stop
        } else {
            StdinAction::Forward(slice_to_vec(slice_subrange(buf, 0, n)))
        },
        StdinRead::Interrupted => StdinAction::Retry,
        StdinRead::Failed => StdinAction::Stop,
    }
}

/// What follows the handing over of a chunk: without a pump to take it there is
/// no use in reading on.
pub open spec fn after_handing_over(taken: bool) -> StdinAction<Seq<u8>> {
    if taken {
        StdinAction::Retry
    } else {
        StdinAction::Stop
    }
}

/// What the keyboard thread does after a chunk was handed to the pump, which has
/// `taken` it or is gone.
pub fn keys_handed_over(taken: bool) -> (action: StdinAction<Vec<u8>>)
    ensures
        action@ == after_handing_over(taken),
{
    if taken {
        StdinAction::Retry
    } else {
        StdinAction::Stop
    }
}

/// A read of the keyboard: into which buffer, what it gave, and whether the pump
/// was there to take what it gave.
pub struct KeyRead {
    pub buf: Seq<u8>,
    pub outcome: StdinRead,
    pub taken: bool,
}

impl KeyRead {
    /// The bytes that were read.
    pub open spec fn bytes(self) -> Seq<u8> {
        match self.outcome {
            StdinRead::Bytes(n) => self.buf.take(n as int),
            _ => Seq::empty(),
        }
    }

    /// The keyboard has no more to give, or nobody takes what it gives.
    pub open spec fn is_the_end(self) -> bool {
        match self.outcome {
            StdinRead::Bytes(n) => n == 0 || !self.taken,
            StdinRead::Interrupted => false,
            StdinRead::Failed => true,
        }
    }
}

/// The keyboard thread: whether it goes on, and what it has given to the pump.
pub struct KeyboardModel {
    pub open: bool,
    pub forwarded: Seq<u8>,
}

impl KeyboardModel {
    /// The thread before its first read.
    pub open spec fn start() -> KeyboardModel {
        KeyboardModel { open: true, forwarded: Seq::empty() }
    }

    /// The thread after a read, which it makes only while it goes on, and after
    /// what follows that read.
    pub open spec fn after(self, read: KeyRead) -> KeyboardModel {
        if !self.open {
            self
        } else {
            match after_read(read.buf, read.outcome) {
                StdinAction::Forward(b) => if after_handing_over(read.taken) is Stop {
                    KeyboardModel { open: false, ..self }
                } else {
                    KeyboardModel { forwarded: self.forwarded + b, ..self }
                },
                StdinAction::Retry => self,
                StdinAction::Stop => KeyboardModel { open: false, ..self },
            }
        }
    }

    /// The thread after several reads.
    pub open spec fn after_all(self, reads: Seq<KeyRead>) -> KeyboardModel
        decreases reads.len(),
    {
        if reads.len() == 0 {
            self
        } else {
            self.after_all(reads.drop_last()).after(reads.last())
        }
    }
}

/// The bytes of several reads, in their order.
pub open spec fn bytes_of_reads(reads: Seq<KeyRead>) -> Seq<u8>
    decreases reads.len(),
{
    if reads.len() == 0 {
        Seq::empty()
    } else {
        bytes_of_reads(reads.drop_last()) + reads.last().bytes()
    }
}

/// Everything that is read from the keyboard goes to the pump, in order and once,
/// up to the first read that is the end; a read that was interrupted is not. With
/// that read, which is number `end`, the thread stops, and nothing after it counts.
pub proof fn keys_are_kept_whole(reads: Seq<KeyRead>, end: int)
    requires
        0 <= end <= reads.len(),
        forall|i: int| 0 <= i < end ==> !(#[trigger] reads[i]).is_the_end(),
        end < reads.len() ==> reads[end].is_the_end(),
    ensures
        KeyboardModel::start().after_all(reads).forwarded == bytes_of_reads(reads.take(end)),
        KeyboardModel::start().after_all(reads).open == (end == reads.len()),
    decreases reads.len(),
{
    if reads.len() == 0 {
        assert(reads.take(end) =~= reads);
    } else {
        let earlier = reads.drop_last();
        let last = reads.last();
        assert(last == reads[reads.len() - 1]);
        if end == reads.len() {
            keys_are_kept_whole(earlier, end - 1);
            assert(reads.take(end) =~= reads);
            assert(earlier.take(end - 1) =~= earlier);
            assert(bytes_of_reads(earlier) + Seq::<u8>::empty() =~= bytes_of_reads(earlier));
        } else {
            keys_are_kept_whole(earlier, end);
            assert(reads.take(end) =~= earlier.take(end));
        }
    }
}

/// Bytes that wait in the pipe are read, however many they are and whatever the
/// pump holds back, into all the room that is left beside what it holds back.
pub proof fn waiting_bytes_are_read(m: PumpModel, n: u32)
    requires
        n > 0,
    ensures
        m.step(PumpEvent::Peeked(Some(n))).0 == m,
        m.step(PumpEvent::Peeked(Some(n))).1 is Read,
        m.wf() ==> m.step(PumpEvent::Peeked(Some(n))).1->room + m.pending.len() == 8192,
{
}

/// Bytes that were read are shown or held back, in their order behind what was held
/// back before, and nothing else changes. A read of nothing ends the relay, and
/// leaves what is held back unshown.
pub proof fn read_bytes_are_shown_or_held_back(m: PumpModel, b: Seq<u8>)
    ensures
        b.len() > 0 ==> m.step(PumpEvent::Read(b)).1 is Show,
        b.len() > 0 ==> m.step(PumpEvent::Read(b)).1->Show_0 + m.step(
            PumpEvent::Read(b),
        ).0.pending == m.pending + b,
        b.len() > 0 ==> m.step(PumpEvent::Read(b)).0.stdin_open == m.stdin_open,
        b.len() == 0 ==> m.step(PumpEvent::Read(b)) == (
            m,
            PumpAction::<Seq<u8>>::Finish { flush: false },
        ),
{
    let all = m.pending + b;
    crate::utf8_prefix::little_is_held_back(all);
    let safe = crate::utf8_prefix::complete_len(all);
    assert(all.take(safe) + all.skip(safe) =~= all);
}

/// Each round begins with the keyboard, as long as it is open. A chunk that it gives
/// is sent as it is, and it is asked again; the pipe is looked at only when it has
/// nothing to give.
pub proof fn keys_go_before_output(m: PumpModel, keys: Seq<u8>)
    ensures
        m.stdin_open ==> m.step(PumpEvent::Resumed) == (m, PumpAction::<Seq<u8>>::PollKeys),
        !m.stdin_open ==> m.step(PumpEvent::Resumed) == (m, PumpAction::<Seq<u8>>::Peek),
        m.step(PumpEvent::Keys(keys)) == (m, PumpAction::Send(keys)),
        m.step(PumpEvent::KeysSent) == (m, PumpAction::<Seq<u8>>::PollKeys),
        m.step(PumpEvent::NoKeys) == (m, PumpAction::<Seq<u8>>::Peek),
        m.step(PumpEvent::KeysClosed).1 is Peek,
        m.step(PumpEvent::KeysClosed).0.pending == m.pending,
        !m.step(PumpEvent::KeysClosed).0.stdin_open,
{
}

/// Where nothing waits in the pipe the relay sleeps, or ends with a last flush if the
/// keyboard is closed. Where the pipe is closed it ends, whatever the keyboard does.
pub proof fn an_empty_pipe_is_waited_for(m: PumpModel)
    ensures
        m.stdin_open ==> m.step(PumpEvent::Peeked(Some(0))) == (m, PumpAction::<Seq<u8>>::Sleep),
        !m.stdin_open ==> m.step(PumpEvent::Peeked(Some(0))) == (
            m,
            PumpAction::<Seq<u8>>::Finish { flush: true },
        ),
        m.step(PumpEvent::Peeked(None)) == (m, PumpAction::<Seq<u8>>::Broken),
{
}

/// The keyboard counts as open until it is reported closed, and never after that.
pub proof fn the_keyboard_is_open_until_it_is_closed(events: Seq<PumpEvent<Seq<u8>>>)
    ensures
        PumpModel::start().run(events).0.stdin_open <==> forall|i: int|
            0 <= i < events.len() ==> !(#[trigger] events[i] is KeysClosed),
    decreases events.len(),
{
    if events.len() > 0 {
        let earlier = events.drop_last();
        the_keyboard_is_open_until_it_is_closed(earlier);
        assert(events.last() == events[events.len() - 1]);
        if PumpModel::start().run(earlier).0.stdin_open {
            assert forall|i: int| 0 <= i < events.len() - 1 implies !(#[trigger] events[i] is KeysClosed) by {
                assert(earlier[i] == events[i]);
            }
        } else {
            let i = choose|i: int| 0 <= i < earlier.len() && #[trigger] earlier[i] is KeysClosed;
            assert(events[i] is KeysClosed);
        }
    }
}

/// What a read of the keyboard gives is handed on byte for byte, however much it is.
/// Only a read that gives nothing or fails ends the keyboard; one that was interrupted
/// is made again.
pub proof fn keyboard_reads_are_handed_on(buf: Seq<u8>, n: usize)
    requires
        0 < n <= buf.len(),
    ensures
        after_read(buf, StdinRead::Bytes(n)) is Forward,
        after_read(buf, StdinRead::Bytes(n))->0.len() == n,
        forall|i: int|
            0 <= i < n ==> #[trigger] after_read(buf, StdinRead::Bytes(n))->0[i] == buf[i],
        after_read(buf, StdinRead::Bytes(0)) is Stop,
        after_read(buf, StdinRead::Failed) is Stop,
        after_read(buf, StdinRead::Interrupted) is Retry,
        after_handing_over(true) is Retry,
        after_handing_over(false) is Stop,
{
}

/// The view of an event is that event, with all of its bytes.
pub proof fn events_are_seen_whole(ev: PumpEvent<Vec<u8>>)
    ensures
        ev@ is Resumed <==> ev is Resumed,
        ev@ is KeysSent <==> ev is KeysSent,
        ev@ is NoKeys <==> ev is NoKeys,
        ev@ is KeysClosed <==> ev is KeysClosed,
        ev matches PumpEvent::Keys(b) ==> ev@ == PumpEvent::Keys(b@),
        ev matches PumpEvent::Read(b) ==> ev@ == PumpEvent::Read(b@),
        ev matches PumpEvent::Peeked(n) ==> (ev@ matches PumpEvent::Peeked(k) && k == n),
{
}

/// The view of an action is that action, with all of its bytes.
pub proof fn actions_are_seen_whole(action: PumpAction<Vec<u8>>)
    ensures
        action@ is PollKeys <==> action is PollKeys,
        action@ is Peek <==> action is Peek,
        action@ is Sleep <==> action is Sleep,
        action@ is Broken <==> action is Broken,
        action matches PumpAction::Send(b) ==> action@ == PumpAction::Send(b@),
        action matches PumpAction::Show(b) ==> action@ == PumpAction::Show(b@),
        action is Read <==> action@ is Read,
        action is Read ==> action@->room == action->room,
        action is Finish <==> action@ is Finish,
        action is Finish ==> action@->flush == action->flush,
{
}

/// The view of what the keyboard thread does is just that, with all of its bytes.
pub proof fn keyboard_actions_are_seen_whole(action: StdinAction<Vec<u8>>)
    ensures
        action@ is Retry <==> action is Retry,
        action@ is Stop <==> action is Stop,
        action matches StdinAction::Forward(b) ==> action@ == StdinAction::Forward(b@),
{
}

} // verus!
