//! The daemon's side of the connection to pty-host, the process that owns the
//! terminals.
//!
//! A request is numbered, written to the pipe, and waited for; a reader gives
//! each answer to the one that waits for that number. [`PtyHostClient`] keeps
//! the numbers and the waiters, and decides what becomes of a request, of a
//! frame that arrives, and of the end of the connection. The program around it
//! owns the pipe, and gives for a waiter whatever it can hand an event to.

use crate::pty_ipc::{PtyHostEvent, PtyHostRequest};
use std::collections::HashMap;
use vstd::prelude::*;

verus! {

broadcast use vstd::std_specs::hash::group_hash_axioms;

/// Why a request was not answered.
#[derive(Debug, PartialEq, Eq)]
pub enum RequestError {
    /// There is no connection to pty-host.
    NotConnected,
    /// The connection ended before the answer came.
    ConnectionLost,
    /// The request could not be written; the system's words for it.
    Failed(String),
}

impl RequestError {
    /// The words for this error.
    pub open spec fn text(self) -> Seq<char> {
        match self {
            RequestError::NotConnected => "pty-host is not connected"@,
            RequestError::ConnectionLost => "pty-host connection lost"@,
            RequestError::Failed(words) => words@,
        }
    }

    /// The words for this error.
    pub fn message(self) -> (text: String)
        ensures
            text@ == self.text(),
    {
        match self {
            RequestError::NotConnected => "pty-host is not connected".to_owned(),
            RequestError::ConnectionLost => "pty-host connection lost".to_owned(),
            RequestError::Failed(words) => words,
        }
    }
}

/// The number after `seq`; after the last one comes 0.
pub open spec fn seq_after(seq: u64) -> u64 {
    if seq == u64::MAX {
        0
    } else {
        (seq + 1) as u64
    }
}

/// The state of a [`PtyHostClient`].
pub struct ClientModel<S> {
    /// There is a pipe to write to. `false` while pty-host is gone.
    pub connected: bool,
    /// Who waits for the answer to which request.
    pub pending: Map<u64, S>,
    /// The number of the next request.
    pub next_seq: u64,
}

/// What to do with a frame that arrived.
#[derive(Debug, PartialEq, Eq)]
pub enum Delivery<Info, S> {
    /// Nothing: the frame makes no sense, or nobody waits for that answer.
    Ignore,
    /// Hand a terminal's output on.
    Output { id: String, data: String },
    /// Tell that a terminal ended.
    Exited { id: String },
    /// Give the answer to the one that waits for it.
    Answer { waiter: S, event: PtyHostEvent<Info> },
}

/// Something that happens to a client.
pub enum ClientEvent<Info, S> {
    /// [`PtyHostClient::reconnect`], with a pipe that was `opened` or not.
    Reconnected { opened: bool },
    /// [`PtyHostClient::seq`].
    Numbered,
    /// [`PtyHostClient::request`].
    Requested { seq: u64, waiter: S },
    /// A request for something: [`PtyHostClient::spawn`] and the like.
    Begun { waiter: S },
    /// [`PtyHostClient::deliver`].
    Delivered(Option<PtyHostEvent<Info>>),
    /// [`PtyHostClient::connection_lost`].
    Lost,
}

/// What follows the loss of the connection, once no request waits any more.
#[derive(Clone, Copy, Debug, PartialEq, Eq, Structural)]
pub enum LossStep {
    /// Write [`CONNECTION_LOST_LINE`] to the log.
    Record,
    /// Wake the supervisor, which connects again.
    WakeSupervisor,
}

/// What the log says of a lost connection.
pub const CONNECTION_LOST_LINE: &'static str = "pty-host connection lost - every terminal it owned is gone";

impl<S> ClientModel<S> {
    /// The state in which a client is made, before it has a pipe.
    pub open spec fn unconnected() -> ClientModel<S> {
        ClientModel { connected: false, pending: Map::empty(), next_seq: 1 }
    }

    /// After a pipe was opened.
    pub open spec fn attached(self) -> ClientModel<S> {
        ClientModel { connected: true, ..self }
    }

    /// After the next number was taken.
    pub open spec fn numbered(self) -> ClientModel<S> {
        ClientModel { next_seq: seq_after(self.next_seq), ..self }
    }

    /// After `waiter` asked to wait for the answer to request `seq`: without a
    /// connection it does not.
    pub open spec fn waiting(self, seq: u64, waiter: S) -> ClientModel<S> {
        if self.connected {
            ClientModel { pending: self.pending.insert(seq, waiter), ..self }
        } else {
            self
        }
    }

    /// After a request was begun: its number is taken, and its waiter waits.
    pub open spec fn begun(self, waiter: S) -> ClientModel<S> {
        self.numbered().waiting(self.next_seq, waiter)
    }

    /// After a frame arrived, and what to do with it. `None` is a frame that
    /// could not be read.
    pub open spec fn delivered<Info>(self, frame: Option<PtyHostEvent<Info>>) -> (
        ClientModel<S>,
        Delivery<Info, S>,
    ) {
        match frame {
            None => (self, Delivery::Ignore),
            Some(PtyHostEvent::Output { id, data }) => (self, Delivery::Output { id, data }),
            Some(PtyHostEvent::Exited { id }) => (self, Delivery::Exited { id }),
            Some(event) => {
                let seq = event.answers()->0;
                if self.pending.contains_key(seq) {
                    (
                        ClientModel { pending: self.pending.remove(seq), ..self },
                        Delivery::Answer { waiter: self.pending[seq], event },
                    )
                } else {
                    (self, Delivery::Ignore)
                }
            },
        }
    }

    /// After the connection was lost: nobody waits, and there is no pipe.
    pub open spec fn lost(self) -> ClientModel<S> {
        ClientModel { connected: false, pending: Map::empty(), ..self }
    }

    /// After `event`.
    pub open spec fn after<Info>(self, event: ClientEvent<Info, S>) -> ClientModel<S> {
        match event {
            ClientEvent::Reconnected { opened } => if opened {
                self.attached()
            } else {
                self
            },
            ClientEvent::Numbered => self.numbered(),
            ClientEvent::Requested { seq, waiter } => self.waiting(seq, waiter),
            ClientEvent::Begun { waiter } => self.begun(waiter),
            ClientEvent::Delivered(frame) => self.delivered(frame).0,
            ClientEvent::Lost => self.lost(),
        }
    }

    /// After several events.
    pub open spec fn after_all<Info>(self, events: Seq<ClientEvent<Info, S>>) -> ClientModel<S>
        decreases events.len(),
    {
        if events.len() == 0 {
            self
        } else {
            self.after_all(events.drop_last()).after(events.last())
        }
    }
}

/// The decisions of a client of pty-host. `S` is what an answer is given to.
#[verifier::reject_recursive_types(S)]
pub struct PtyHostClient<S> {
    connected: bool,
    pending: HashMap<u64, S>,
    next_seq: u64,
}

impl<S> View for PtyHostClient<S> {
    type V = ClientModel<S>;

    closed spec fn view(&self) -> ClientModel<S> {
        ClientModel {
            connected: self.connected,
            pending: self.pending@,
            next_seq: self.next_seq,
        }
    }
}

impl<S> PtyHostClient<S> {
    /// A client, once its first pipe is open. If it could not be opened there
    /// is no client, but the reason.
    pub fn connect<E>(opened: Result<(), E>) -> (client: Result<PtyHostClient<S>, E>)
        ensures
            match opened {
                Ok(_) => client matches Ok(c) && c@ == ClientModel::<S>::unconnected().attached(),
                Err(e) => client matches Err(f) && f == e,
            },
    {
        let mut client: PtyHostClient<S> = PtyHostClient {
            connected: false,
            pending: HashMap::new(),
            next_seq: 1,
        };
        match client.attach(opened) {
            Ok(_) => Ok(client),
            Err(e) => Err(e),
        }
    }

    /// Points the client at a pipe that was opened, or leaves it as it is and
    /// gives the reason why none was.
    fn attach<E>(&mut self, opened: Result<(), E>) -> (r: Result<(), E>)
        ensures
            r == opened,
            final(self)@ == if opened is Ok {
                old(self)@.attached()
            } else {
                old(self)@
            },
    {
        if opened.is_ok() {
            self.connected = true;
        }
        opened
    }

    /// Connects the client again, after pty-host died and a new pipe was opened
    /// or not. The numbers go on from where they were.
    pub fn reconnect<E>(&mut self, opened: Result<(), E>) -> (r: Result<(), E>)
        ensures
            r == opened,
            final(self)@ == if opened is Ok {
                old(self)@.attached()
            } else {
                old(self)@
            },
    {
        self.attach(opened)
    }

    /// Takes the number for a request.
    pub fn seq(&mut self) -> (seq: u64)
        ensures
            seq == old(self)@.next_seq,
            final(self)@ == old(self)@.numbered(),
    {
        let seq: u64 = self.next_seq;
        self.next_seq = if seq == u64::MAX {
            0
        } else {
            seq + 1
        };
        seq
    }

    /// Lets `waiter` wait for the answer to request `seq`, which the caller
    /// writes to the pipe next. Without a connection it fails at once.
    pub fn request(&mut self, seq: u64, waiter: S) -> (r: Result<(), RequestError>)
        ensures
            r is Ok <==> old(self)@.connected,
            r matches Err(e) ==> e is NotConnected,
            final(self)@ == old(self)@.waiting(seq, waiter),
    {
        if !self.connected {
            return Err(RequestError::NotConnected);
        }
        self.pending.insert(seq, waiter);
        Ok(())
    }

    /// Decides what to do with a frame that arrived.
    pub fn deliver<Info>(&mut self, frame: Option<PtyHostEvent<Info>>) -> (delivery: Delivery<
        Info,
        S,
    >)
        ensures
            (final(self)@, delivery) == old(self)@.delivered(frame),
    {
        match frame {
            None => Delivery::Ignore,
            Some(PtyHostEvent::Output { id, data }) => Delivery::Output { id, data },
            Some(PtyHostEvent::Exited { id }) => Delivery::Exited { id },
            Some(event) => match event.seq() {
                None => Delivery::Ignore,
                Some(seq) => match self.pending.remove(&seq) {
                    Some(waiter) => Delivery::Answer { waiter, event },
                    None => {
                        assert(self.pending@ =~= old(self).pending@);
                        Delivery::Ignore
                    },
                },
            },
        }
    }

    /// Ends the connection: every request in flight fails by losing its waiter,
    /// and every later one fails at once until the client is connected again.
    /// Only after that is the loss recorded and the supervisor woken.
    pub fn connection_lost(&mut self) -> (steps: Vec<LossStep>)
        ensures
            final(self)@ == old(self)@.lost(),
            steps@ == seq![LossStep::Record, LossStep::WakeSupervisor],
    {
        self.pending.clear();
        self.connected = false;
        let mut steps: Vec<LossStep> = Vec::new();
        steps.push(LossStep::Record);
        steps.push(LossStep::WakeSupervisor);
        assert(steps@ =~= seq![LossStep::Record, LossStep::WakeSupervisor]);
        steps
    }

    /// Numbers a request and lets `waiter` wait for its answer.
    fn begin(&mut self, waiter: S) -> (r: Result<u64, RequestError>)
        ensures
            final(self)@ == old(self)@.begun(waiter),
            match r {
                Ok(seq) => old(self)@.connected && seq == old(self)@.next_seq,
                Err(e) => !old(self)@.connected && e is NotConnected,
            },
    {
        let seq: u64 = self.seq();
        match self.request(seq, waiter) {
            Ok(_) => Ok(seq),
            Err(e) => Err(e),
        }
    }

    /// Begins the request for a new terminal; what is returned is to be written
    /// to the pipe.
    pub fn spawn(
        &mut self,
        waiter: S,
        id: &str,
        cwd: &str,
        command: Option<&str>,
        cols: u16,
        rows: u16,
    ) -> (r: Result<PtyHostRequest, RequestError>)
        ensures
            final(self)@ == old(self)@.begun(waiter),
            match r {
                Ok(request) => old(self)@.connected && request@ == (PtyHostRequest::Spawn {
                    seq: old(self)@.next_seq,
                    id: id@,
                    cwd: cwd@,
                    command: match command {
                        Some(c) => Some(c@),
                        None => None,
                    },
                    cols,
                    rows,
                }),
                Err(e) => !old(self)@.connected && e is NotConnected,
            },
    {
        match self.begin(waiter) {
            Ok(seq) => Ok(
                PtyHostRequest::Spawn {
                    seq,
                    id: id.to_owned(),
                    cwd: cwd.to_owned(),
                    command: match command {
                        Some(c) => Some(c.to_owned()),
                        None => None,
                    },
                    cols,
                    rows,
                },
            ),
            Err(e) => Err(e),
        }
    }

    /// The input `data` for a terminal, to be written to the pipe; without a
    /// connection it is dropped. Nobody waits for an answer.
    pub fn write(&self, id: &str, data: &str) -> (r: Option<PtyHostRequest>)
        ensures
            match r {
                Some(request) => self@.connected && request@ == (PtyHostRequest::Write {
                    id: id@,
                    data: data@,
                }),
                None => !self@.connected,
            },
    {
        if self.connected {
            Some(PtyHostRequest::Write { id: id.to_owned(), data: data.to_owned() })
        } else {
            None
        }
    }

    /// Begins the request for another size of a terminal.
    pub fn resize(&mut self, waiter: S, id: &str, cols: u16, rows: u16) -> (r: Result<PtyHostRequest, RequestError>)
        ensures
            final(self)@ == old(self)@.begun(waiter),
            match r {
                Ok(request) => old(self)@.connected && request@ == (PtyHostRequest::Resize {
                    seq: old(self)@.next_seq,
                    id: id@,
                    cols,
                    rows,
                }),
                Err(e) => !old(self)@.connected && e is NotConnected,
            },
    {
        match self.begin(waiter) {
            Ok(seq) => Ok(PtyHostRequest::Resize { seq, id: id.to_owned(), cols, rows }),
            Err(e) => Err(e),
        }
    }

    /// Begins the request for the end of a terminal.
    pub fn kill(&mut self, waiter: S, id: &str) -> (r: Result<PtyHostRequest, RequestError>)
        ensures
            final(self)@ == old(self)@.begun(waiter),
            match r {
                Ok(request) => old(self)@.connected && request@ == (PtyHostRequest::Kill {
                    seq: old(self)@.next_seq,
                    id: id@,
                }),
                Err(e) => !old(self)@.connected && e is NotConnected,
            },
    {
        match self.begin(waiter) {
            Ok(seq) => Ok(PtyHostRequest::Kill { seq, id: id.to_owned() }),
            Err(e) => Err(e),
        }
    }

    /// Begins the request for what a terminal's screen shows.
    pub fn screen(&mut self, waiter: S, id: &str) -> (r: Result<PtyHostRequest, RequestError>)
        ensures
            final(self)@ == old(self)@.begun(waiter),
            match r {
                Ok(request) => old(self)@.connected && request@ == (PtyHostRequest::Screen {
                    seq: old(self)@.next_seq,
                    id: id@,
                }),
                Err(e) => !old(self)@.connected && e is NotConnected,
            },
    {
        match self.begin(waiter) {
            Ok(seq) => Ok(PtyHostRequest::Screen { seq, id: id.to_owned() }),
            Err(e) => Err(e),
        }
    }

    /// Begins the request that pins a terminal to a size: pty-host takes back any
    /// other resize.
    pub fn lock_size(&mut self, waiter: S, id: &str, cols: u16, rows: u16) -> (r: Result<PtyHostRequest, RequestError>)
        ensures
            final(self)@ == old(self)@.begun(waiter),
            match r {
                Ok(request) => old(self)@.connected && request@ == (PtyHostRequest::LockSize {
                    seq: old(self)@.next_seq,
                    id: id@,
                    cols,
                    rows,
                }),
                Err(e) => !old(self)@.connected && e is NotConnected,
            },
    {
        match self.begin(waiter) {
            Ok(seq) => Ok(PtyHostRequest::LockSize { seq, id: id.to_owned(), cols, rows }),
            Err(e) => Err(e),
        }
    }

    /// Begins the request for the terminals there are.
    pub fn list(&mut self, waiter: S) -> (r: Result<PtyHostRequest, RequestError>)
        ensures
            final(self)@ == old(self)@.begun(waiter),
            match r {
                Ok(request) => old(self)@.connected && request@ == (PtyHostRequest::<Seq<char>>::List {
                    seq: old(self)@.next_seq,
                }),
                Err(e) => !old(self)@.connected && e is NotConnected,
            },
    {
        match self.begin(waiter) {
            Ok(seq) => Ok(PtyHostRequest::List { seq }),
            Err(e) => Err(e),
        }
    }
}

/// What a waiter has in the end: the answer, or, if it was dropped, the news
/// that the connection is lost.
pub fn answer<Info>(received: Option<PtyHostEvent<Info>>) -> (r: Result<
    PtyHostEvent<Info>,
    RequestError,
>)
    ensures
        match received {
            Some(event) => r == Ok::<PtyHostEvent<Info>, RequestError>(event),
            None => r matches Err(e) && e is ConnectionLost,
        },
{
    match received {
        Some(event) => Ok(event),
        None => Err(RequestError::ConnectionLost),
    }
}

/// What the answer to a request for a new terminal comes to.
pub fn spawn_reply<Info>(reply: Result<PtyHostEvent<Info>, RequestError>) -> (r: Result<(), String>)
    ensures
        match reply {
            Ok(PtyHostEvent::SpawnResult { .. }) => r is Ok,
            Ok(PtyHostEvent::Error { message, .. }) => r == Err::<(), String>(message),
            Ok(_) => r matches Err(m) && m@ == "unexpected response"@,
            Err(e) => r matches Err(m) && m@ == e.text(),
        },
{
    match reply {
        Ok(PtyHostEvent::SpawnResult { .. }) => Ok(()),
        Ok(PtyHostEvent::Error { message, .. }) => Err(message),
        Ok(_) => Err("unexpected response".to_owned()),
        Err(e) => Err(e.message()),
    }
}

/// What the answer to a request comes to that only has to be carried out.
pub open spec fn done_result<Info>(
    reply: Result<PtyHostEvent<Info>, RequestError>,
    r: Result<(), String>,
) -> bool {
    match reply {
        Ok(PtyHostEvent::Done { .. }) => r is Ok,
        Ok(PtyHostEvent::Error { message, .. }) => r == Err::<(), String>(message),
        Ok(_) => r matches Err(m) && m@ == "unexpected response"@,
        Err(e) => r matches Err(m) && m@ == e.text(),
    }
}

fn done_reply<Info>(reply: Result<PtyHostEvent<Info>, RequestError>) -> (r: Result<(), String>)
    ensures
        done_result(reply, r),
{
    match reply {
        Ok(PtyHostEvent::Done { .. }) => Ok(()),
        Ok(PtyHostEvent::Error { message, .. }) => Err(message),
        Ok(_) => Err("unexpected response".to_owned()),
        Err(e) => Err(e.message()),
    }
}

/// What the answer to a request for another size comes to.
pub fn resize_reply<Info>(reply: Result<PtyHostEvent<Info>, RequestError>) -> (r: Result<
    (),
    String,
>)
    ensures
        done_result(reply, r),
{
    done_reply(reply)
}

/// What the answer to a request for a terminal's end comes to.
pub fn kill_reply<Info>(reply: Result<PtyHostEvent<Info>, RequestError>) -> (r: Result<(), String>)
    ensures
        done_result(reply, r),
{
    done_reply(reply)
}

/// What the answer to a request for a screen comes to: its contents and the
/// size of its grid, if there is a screen.
pub fn screen_reply<Info>(reply: Result<PtyHostEvent<Info>, RequestError>) -> (r: Option<
    (String, u16, u16),
>)
    ensures
        r == match reply {
            Ok(PtyHostEvent::ScreenResult { data: Some(d), cols, rows, .. }) => Some((d, cols, rows)),
            _ => None,
        },
{
    match reply {
        Ok(PtyHostEvent::ScreenResult { data: Some(d), cols, rows, .. }) => Some((d, cols, rows)),
        _ => None,
    }
}

/// Whether a terminal is now pinned to a size.
pub fn lock_size_reply<Info>(reply: Result<PtyHostEvent<Info>, RequestError>) -> (r: bool)
    ensures
        r == (reply matches Ok(event) && event is Done),
{
    match reply {
        Ok(PtyHostEvent::Done { .. }) => true,
        _ => false,
    }
}

/// The terminals that the answer names; none if there is no such answer.
pub fn list_reply<Info>(reply: Result<PtyHostEvent<Info>, RequestError>) -> (r: Vec<Info>)
    ensures
        match reply {
            Ok(PtyHostEvent::ListResult { terminals, .. }) => r == terminals,
            _ => r@.len() == 0,
        },
{
    match reply {
        Ok(PtyHostEvent::ListResult { terminals, .. }) => terminals,
        _ => Vec::new(),
    }
}

/// The answer to a request is given to the one that made it, and no later event
/// with that number is given to anybody.
pub proof fn answer_reaches_its_request<S, Info>(
    m: ClientModel<S>,
    waiter: S,
    event: PtyHostEvent<Info>,
)
    requires
        m.connected,
        event.answers() == Some(m.next_seq),
    ensures
        ({
            let (after, delivery) = m.begun(waiter).delivered(Some(event));
            &&& delivery == Delivery::<Info, S>::Answer { waiter, event }
            &&& after.pending == m.pending.remove(m.next_seq)
            &&& after.delivered(Some(event)) == (after, Delivery::<Info, S>::Ignore)
        }),
{
    assert(m.pending.insert(m.next_seq, waiter).remove(m.next_seq) =~= m.pending.remove(
        m.next_seq,
    ));
}

/// A frame touches no request but the one that it answers.
pub proof fn other_requests_go_on<S, Info>(
    m: ClientModel<S>,
    frame: Option<PtyHostEvent<Info>>,
    seq: u64,
)
    requires
        m.pending.contains_key(seq),
        frame matches Some(event) ==> event.answers() != Some(seq),
    ensures
        m.delivered(frame).0.pending.contains_key(seq),
        m.delivered(frame).0.pending[seq] == m.pending[seq],
        m.delivered(frame).0.connected == m.connected,
        m.delivered(frame).0.next_seq == m.next_seq,
{
}

/// After the connection is lost no request waits, and none can begin to wait
/// until the client is connected again; the numbers are not used again.
pub proof fn nothing_waits_for_a_lost_host<S>(m: ClientModel<S>, waiter: S)
    ensures
        m.lost().pending == Map::<u64, S>::empty(),
        m.lost().begun(waiter).pending == Map::<u64, S>::empty(),
        m.lost().next_seq == m.next_seq,
        m.lost().attached().begun(waiter).pending == Map::<u64, S>::empty().insert(
            m.next_seq,
            waiter,
        ),
{
}

/// From the loss of the connection on, whatever happens, nobody waits and there is
/// no connection, until the client is connected again with a pipe that was opened.
/// So every request in between fails at once, and none hangs.
pub proof fn a_lost_host_stays_lost_until_reconnected<S, Info>(
    m: ClientModel<S>,
    events: Seq<ClientEvent<Info, S>>,
)
    requires
        forall|i: int|
            0 <= i < events.len() ==> !(#[trigger] events[i] matches ClientEvent::Reconnected {
                opened,
            } && opened),
    ensures
        !m.lost().after_all(events).connected,
        m.lost().after_all(events).pending == Map::<u64, S>::empty(),
    decreases events.len(),
{
    if events.len() > 0 {
        assert(events.last() == events[events.len() - 1]);
        assert forall|i: int| 0 <= i < events.len() - 1 implies !(
        #[trigger] events.drop_last()[i] matches ClientEvent::Reconnected { opened } && opened) by {
            assert(events.drop_last()[i] == events[i]);
        }
        a_lost_host_stays_lost_until_reconnected(m, events.drop_last());
    }
}

/// `event` neither answers request `seq`, nor ends the connection, nor puts another
/// waiter in its place by hand.
pub open spec fn leaves_waiting<Info, S>(event: ClientEvent<Info, S>, seq: u64) -> bool {
    match event {
        ClientEvent::Delivered(Some(e)) => e.answers() != Some(seq),
        ClientEvent::Requested { seq: s, .. } => s != seq,
        ClientEvent::Lost => false,
        _ => true,
    }
}

/// A request waits through all that happens, new requests and answers to others
/// among it, and gets its answer when that comes, as long as the numbers last.
pub proof fn a_request_waits_for_its_answer<S, Info>(
    m: ClientModel<S>,
    seq: u64,
    events: Seq<ClientEvent<Info, S>>,
    answer: PtyHostEvent<Info>,
)
    requires
        m.pending.contains_key(seq),
        seq < m.next_seq,
        m.next_seq + events.len() <= u64::MAX,
        forall|i: int| 0 <= i < events.len() ==> leaves_waiting(#[trigger] events[i], seq),
        answer.answers() == Some(seq),
    ensures
        m.after_all(events).pending.contains_key(seq),
        m.after_all(events).pending[seq] == m.pending[seq],
        m.next_seq <= m.after_all(events).next_seq <= m.next_seq + events.len(),
        m.after_all(events).delivered(Some(answer)).1 == (Delivery::<Info, S>::Answer {
            waiter: m.pending[seq],
            event: answer,
        }),
    decreases events.len(),
{
    if events.len() > 0 {
        assert(events.last() == events[events.len() - 1]);
        assert forall|i: int| 0 <= i < events.len() - 1 implies leaves_waiting(
            #[trigger] events.drop_last()[i],
            seq,
        ) by {
            assert(events.drop_last()[i] == events[i]);
        }
        a_request_waits_for_its_answer(m, seq, events.drop_last(), answer);
    }
}

/// Every request in flight has a number that was taken before.
pub open spec fn in_flight_are_older<S>(m: ClientModel<S>) -> bool {
    forall|seq: u64| #[trigger] m.pending.contains_key(seq) ==> 1 <= seq < m.next_seq
}

/// As long as the numbers last, a new request never takes the place of one that
/// is in flight: a new client has none in flight, and nothing that happens to
/// it makes one of them as new as the next.
pub proof fn requests_are_told_apart<S, Info>(
    m: ClientModel<S>,
    waiter: S,
    frame: Option<PtyHostEvent<Info>>,
)
    requires
        in_flight_are_older(m),
        1 <= m.next_seq < u64::MAX,
    ensures
        in_flight_are_older(ClientModel::<S>::unconnected()),
        !m.pending.contains_key(m.next_seq),
        in_flight_are_older(m.begun(waiter)),
        in_flight_are_older(m.delivered(frame).0),
        in_flight_are_older(m.lost()),
        in_flight_are_older(m.attached()),
        m.begun(waiter).next_seq == m.next_seq + 1,
{
}

/// Through whatever happens to a new client, as long as the numbers last and every
/// request takes its own, the number of the next request is that of none in flight.
pub proof fn no_request_is_displaced<S, Info>(events: Seq<ClientEvent<Info, S>>)
    requires
        events.len() < u64::MAX - 1,
        forall|i: int| 0 <= i < events.len() ==> !(#[trigger] events[i] is Requested),
    ensures
        ({
            let m = ClientModel::<S>::unconnected().attached().after_all(events);
            &&& in_flight_are_older(m)
            &&& !m.pending.contains_key(m.next_seq)
            &&& 1 <= m.next_seq <= 1 + events.len()
        }),
    decreases events.len(),
{
    if events.len() > 0 {
        assert(events.last() == events[events.len() - 1]);
        assert forall|i: int| 0 <= i < events.len() - 1 implies !(
        #[trigger] events.drop_last()[i] is Requested) by {
            assert(events.drop_last()[i] == events[i]);
        }
        no_request_is_displaced(events.drop_last());
    }
}

/// What a terminal prints and that it ended is handed on in every state of the client,
/// connected or not and whoever waits, as it came, and changes nothing.
pub proof fn output_and_exits_are_always_handed_on<S, Info>(
    m: ClientModel<S>,
    id: String,
    data: String,
)
    ensures
        m.delivered(Some(PtyHostEvent::<Info>::Output { id, data })) == (
            m,
            (Delivery::<Info, S>::Output { id, data }),
        ),
        m.delivered(Some(PtyHostEvent::<Info>::Exited { id })) == (
            m,
            (Delivery::<Info, S>::Exited { id }),
        ),
{
}

/// An answer is given, as it came, to the one that waits for its number, who waits no
/// more; nobody else is touched. Where nobody waits for it, and where a frame makes no
/// sense, nothing happens. So in every state of the client.
pub proof fn answers_go_to_whom_they_answer<S, Info>(
    m: ClientModel<S>,
    seq: u64,
    event: PtyHostEvent<Info>,
)
    requires
        ({
            ||| event matches PtyHostEvent::SpawnResult { seq: s } && s == seq
            ||| event matches PtyHostEvent::Done { seq: s } && s == seq
            ||| event matches PtyHostEvent::Error { seq: s, .. } && s == seq
            ||| event matches PtyHostEvent::ListResult { seq: s, .. } && s == seq
            ||| event matches PtyHostEvent::ScreenResult { seq: s, .. } && s == seq
        }),
    ensures
        ({
            let (after, delivery) = m.delivered(Some(event));
            if m.pending.contains_key(seq) {
                &&& delivery == (Delivery::<Info, S>::Answer { waiter: m.pending[seq], event })
                &&& after.pending == m.pending.remove(seq)
                &&& after.connected == m.connected
                &&& after.next_seq == m.next_seq
            } else {
                after == m && delivery is Ignore
            }
        }),
        m.delivered(None::<PtyHostEvent<Info>>) == (m, Delivery::<Info, S>::Ignore),
{
}

/// A new client is connected, has no request in flight and numbers from one. Connecting
/// again keeps all but that it is connected; losing the connection keeps the numbers
/// alone.
pub proof fn connections_come_and_go<S>(m: ClientModel<S>)
    ensures
        ({
            let new = ClientModel::<S>::unconnected().attached();
            new.connected && new.pending == Map::<u64, S>::empty() && new.next_seq == 1
        }),
        m.attached().connected,
        m.attached().pending == m.pending,
        m.attached().next_seq == m.next_seq,
        !m.lost().connected,
        m.lost().pending == Map::<u64, S>::empty(),
        m.lost().next_seq == m.next_seq,
{
}

/// A waiter waits exactly where there is a connection, beside all who wait already, and
/// whatever the number. The numbers go up by one, and from the last to 0.
pub proof fn waiters_wait_while_connected<S>(m: ClientModel<S>, seq: u64, waiter: S)
    ensures
        m.connected ==> m.waiting(seq, waiter).pending == m.pending.insert(seq, waiter),
        !m.connected ==> m.waiting(seq, waiter).pending == m.pending,
        m.waiting(seq, waiter).connected == m.connected,
        m.waiting(seq, waiter).next_seq == m.next_seq,
        m.connected ==> m.begun(waiter).pending == m.pending.insert(m.next_seq, waiter),
        !m.connected ==> m.begun(waiter).pending == m.pending,
        m.begun(waiter).connected == m.connected,
        m.begun(waiter).next_seq == (m.next_seq + 1) % 0x1_0000_0000_0000_0000,
        m.numbered().pending == m.pending,
        m.numbered().connected == m.connected,
        m.numbered().next_seq == (m.next_seq + 1) % 0x1_0000_0000_0000_0000,
{
}

/// A request that only has to be carried out comes to success exactly if the answer says
/// that it was. Otherwise the error is pty-host's message, word for word, or that the
/// answer is not one to this request, or why there was no answer.
pub proof fn failures_are_told_word_for_word<Info>(
    reply: Result<PtyHostEvent<Info>, RequestError>,
    r: Result<(), String>,
)
    requires
        done_result(reply, r),
    ensures
        r is Ok <==> (reply matches Ok(event) && event is Done),
        reply matches Ok(PtyHostEvent::Error { message, .. }) ==> r == Err::<(), String>(message),
        reply is Ok && !(reply->Ok_0 is Done) && !(reply->Ok_0 is Error) ==> (r matches Err(m)
            && m@ == "unexpected response"@),
        reply matches Err(e) ==> (r matches Err(m) && m@ == e.text()),
{
}

/// The words for an error are those of the system where it has some.
pub proof fn errors_have_their_words(e: RequestError)
    ensures
        e is NotConnected ==> e.text() == "pty-host is not connected"@,
        e is ConnectionLost ==> e.text() == "pty-host connection lost"@,
        e matches RequestError::Failed(words) ==> e.text() == words@,
{
}

} // verus!
