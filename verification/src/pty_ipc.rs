//! What the daemon and pty-host say to each other.

use vstd::prelude::*;

verus! {

/// What the daemon asks of pty-host. A request with a `seq` is answered by an
/// event with the same `seq`. `Text` holds text.
#[derive(Debug, PartialEq, Eq)]
pub enum PtyHostRequest<Text = String> {
    Spawn { seq: u64, id: Text, cwd: Text, command: Option<Text>, cols: u16, rows: u16 },
    /// Input for a terminal. There is no answer to it.
    Write { id: Text, data: Text },
    Resize { seq: u64, id: Text, cols: u16, rows: u16 },
    Kill { seq: u64, id: Text },
    Screen { seq: u64, id: Text },
    LockSize { seq: u64, id: Text, cols: u16, rows: u16 },
    List { seq: u64 },
}

impl View for PtyHostRequest<String> {
    type V = PtyHostRequest<Seq<char>>;

    open spec fn view(&self) -> PtyHostRequest<Seq<char>> {
        match *self {
            PtyHostRequest::Spawn { seq, id, cwd, command, cols, rows } => PtyHostRequest::Spawn {
                seq,
                id: id@,
                cwd: cwd@,
                command: match command {
                    Some(c) => Some(c@),
                    None => None,
                },
                cols,
                rows,
            },
            PtyHostRequest::Write { id, data } => PtyHostRequest::Write { id: id@, data: data@ },
            PtyHostRequest::Resize { seq, id, cols, rows } => PtyHostRequest::Resize {
                seq,
                id: id@,
                cols,
                rows,
            },
            PtyHostRequest::Kill { seq, id } => PtyHostRequest::Kill { seq, id: id@ },
            PtyHostRequest::Screen { seq, id } => PtyHostRequest::Screen { seq, id: id@ },
            PtyHostRequest::LockSize { seq, id, cols, rows } => PtyHostRequest::LockSize {
                seq,
                id: id@,
                cols,
                rows,
            },
            PtyHostRequest::List { seq } => PtyHostRequest::List { seq },
        }
    }
}

/// What pty-host reports. `Info` describes a terminal; it is handed through and
/// not looked into.
#[allow(inconsistent_fields)]
#[derive(Debug, PartialEq, Eq)]
pub enum PtyHostEvent<Info> {
    /// A terminal produced data.
    Output { id: String, data: String },
    /// A terminal's process ended.
    Exited { id: String },
    SpawnResult { seq: u64 },
    /// A request that has no result of its own was carried out.
    Done { seq: u64 },
    Error { seq: u64, message: String },
    ListResult { seq: u64, terminals: Vec<Info> },
    /// `data` is `None` where the terminal has no screen.
    ScreenResult { seq: u64, data: Option<String>, cols: u16, rows: u16 },
}

impl<Info> PtyHostEvent<Info> {
    /// The request that this event answers, if it answers one.
    pub open spec fn answers(self) -> Option<u64> {
        match self {
            PtyHostEvent::Output { .. } => None,
            PtyHostEvent::Exited { .. } => None,
            PtyHostEvent::SpawnResult { seq } => Some(seq),
            PtyHostEvent::Done { seq } => Some(seq),
            PtyHostEvent::Error { seq, .. } => Some(seq),
            PtyHostEvent::ListResult { seq, .. } => Some(seq),
            PtyHostEvent::ScreenResult { seq, .. } => Some(seq),
        }
    }

    /// The number of the request that this event answers, if it answers one.
    pub fn seq(&self) -> (seq: Option<u64>)
        ensures
            seq == self.answers(),
    {
        match self {
            PtyHostEvent::Output { .. } => None,
            PtyHostEvent::Exited { .. } => None,
            PtyHostEvent::SpawnResult { seq } => Some(*seq),
            PtyHostEvent::Done { seq } => Some(*seq),
            PtyHostEvent::Error { seq, .. } => Some(*seq),
            PtyHostEvent::ListResult { seq, .. } => Some(*seq),
            PtyHostEvent::ScreenResult { seq, .. } => Some(*seq),
        }
    }
}

/// Every event but output and an exit answers the request whose number it bears.
pub proof fn answers_bear_the_number_of_their_request<Info>(event: PtyHostEvent<Info>)
    ensures
        event.answers() is None <==> event is Output || event is Exited,
        event matches PtyHostEvent::SpawnResult { seq } ==> event.answers() == Some(seq),
        event matches PtyHostEvent::Done { seq } ==> event.answers() == Some(seq),
        event matches PtyHostEvent::Error { seq, .. } ==> event.answers() == Some(seq),
        event matches PtyHostEvent::ListResult { seq, .. } ==> event.answers() == Some(seq),
        event matches PtyHostEvent::ScreenResult { seq, .. } ==> event.answers() == Some(seq),
{
}

/// The view of a request is that request, with all that it says.
pub proof fn requests_are_seen_whole(request: PtyHostRequest<String>)
    ensures
        request matches PtyHostRequest::Spawn { seq, id, cwd, command, cols, rows } ==> request@
            == (PtyHostRequest::Spawn {
            seq,
            id: id@,
            cwd: cwd@,
            command: match command {
                Some(c) => Some(c@),
                None => None,
            },
            cols,
            rows,
        }),
        request matches PtyHostRequest::Write { id, data } ==> request@ == (PtyHostRequest::Write {
            id: id@,
            data: data@,
        }),
        request matches PtyHostRequest::Resize { seq, id, cols, rows } ==> request@
            == (PtyHostRequest::Resize { seq, id: id@, cols, rows }),
        request matches PtyHostRequest::Kill { seq, id } ==> request@ == (PtyHostRequest::Kill {
            seq,
            id: id@,
        }),
        request matches PtyHostRequest::Screen { seq, id } ==> request@
            == (PtyHostRequest::Screen { seq, id: id@ }),
        request matches PtyHostRequest::LockSize { seq, id, cols, rows } ==> request@
            == (PtyHostRequest::LockSize { seq, id: id@, cols, rows }),
        request matches PtyHostRequest::List { seq } ==> request@ == (PtyHostRequest::<
            Seq<char>,
        >::List { seq }),
{
}

} // verus!
