//! How the daemon gets hold of pty-host.
//!
//! pty-host may not be running yet. Then opening its pipe finds no such file,
//! and the daemon starts it, once, and tries again for a few seconds while it
//! comes up. [`PipeConnector`] decides; the program around it opens, starts
//! and waits.

use vstd::prelude::*;

verus! {

/// How often the pipe is tried.
pub const CONNECT_ATTEMPTS: u32 = 30;

/// How long to wait between two tries, in milliseconds.
pub const CONNECT_RETRY_MS: u64 = 200;

/// The system's number for a pipe that does not exist.
pub const ERROR_FILE_NOT_FOUND: i32 = 2;

/// The flag that starts a program without a console window. pty-host must not
/// have one: whoever closes that window ends every terminal with it.
pub const CREATE_NO_WINDOW: u32 = 0x0800_0000;

/// What is said when pty-host never came up.
pub const HOST_DID_NOT_COME_UP: &'static str = "pty-host did not come up";

/// What happened.
#[derive(Debug, PartialEq, Eq)]
pub enum ConnectEvent {
    /// The connector starts, or a wait is over.
    Ready,
    /// The pipe was opened.
    Opened,
    /// Opening the pipe failed, with the system's error number if there was one.
    Failed(Option<i32>),
}

/// What to do next.
#[derive(Clone, Copy, Debug, PartialEq, Eq, Structural)]
pub enum ConnectAction {
    /// Open the pipe.
    Open,
    /// Start pty-host, then wait for [`CONNECT_RETRY_MS`].
    StartHostAndWait,
    /// Wait for [`CONNECT_RETRY_MS`].
    Wait,
    /// Done: the pipe is open.
    Connected,
    /// Done: give up with the error that opening the pipe had.
    Fail,
    /// Done: give up with [`HOST_DID_NOT_COME_UP`].
    TimedOut,
}

/// Whether an error says that the pipe does not exist.
pub open spec fn is_not_found(ev: ConnectEvent) -> bool {
    ev == ConnectEvent::Failed(Some(ERROR_FILE_NOT_FOUND))
}

/// What follows when the pipe has not been found `tries` times before: how
/// often it has not been found then, and the answer to the event.
pub open spec fn connect_step(tries: int, ev: ConnectEvent) -> (int, ConnectAction) {
    match ev {
        ConnectEvent::Ready => (
            tries,
            if tries < CONNECT_ATTEMPTS {
                ConnectAction::Open
            } else {
                ConnectAction::TimedOut
            },
        ),
        ConnectEvent::Opened => (tries, ConnectAction::Connected),
        ConnectEvent::Failed(code) => if code == Some(ERROR_FILE_NOT_FOUND) {
            (
                if tries < CONNECT_ATTEMPTS {
                    tries + 1
                } else {
                    tries
                },
                if tries == 0 {
                    ConnectAction::StartHostAndWait
                } else {
                    ConnectAction::Wait
                },
            )
        } else {
            (tries, ConnectAction::Fail)
        },
    }
}

/// The state of a new connector after `events`, and its answers.
pub open spec fn connect_run(events: Seq<ConnectEvent>) -> (int, Seq<ConnectAction>)
    decreases events.len(),
{
    if events.len() == 0 {
        (0, Seq::empty())
    } else {
        let (tries, actions) = connect_run(events.drop_last());
        let (after, action) = connect_step(tries, events.last());
        (after, actions.push(action))
    }
}

/// How often `events` say that the pipe was not found.
pub open spec fn times_not_found(events: Seq<ConnectEvent>) -> int
    decreases events.len(),
{
    if events.len() == 0 {
        0
    } else {
        times_not_found(events.drop_last()) + if is_not_found(events.last()) {
            1int
        } else {
            0
        }
    }
}

/// The decisions on the way to a connection.
pub struct PipeConnector {
    tries: u32,
}

impl PipeConnector {
    /// How often the pipe has not been found.
    pub closed spec fn tries(&self) -> int {
        self.tries as int
    }

    /// A connector that has not tried yet.
    pub fn new() -> (connector: PipeConnector)
        ensures
            connector.tries() == 0,
    {
        PipeConnector { tries: 0 }
    }

    /// What to do after `ev`.
    pub fn next(&mut self, ev: ConnectEvent) -> (action: ConnectAction)
        ensures
            (final(self).tries(), action) == connect_step(old(self).tries(), ev),
    {
        match ev {
            ConnectEvent::Ready => if self.tries < CONNECT_ATTEMPTS {
                ConnectAction::Open
            } else {
                ConnectAction::TimedOut
            },
            ConnectEvent::Opened => ConnectAction::Connected,
            ConnectEvent::Failed(code) => {
                let missing: bool = match code {
                    Some(number) => number == ERROR_FILE_NOT_FOUND,
                    None => false,
                };
                if !missing {
                    return ConnectAction::Fail;
                }
                let first: bool = self.tries == 0;
                if self.tries < CONNECT_ATTEMPTS {
                    self.tries = self.tries + 1;
                }
                if first {
                    ConnectAction::StartHostAndWait
                } else {
                    ConnectAction::Wait
                }
            },
        }
    }
}

/// The pipe is opened as long as it has not been found fewer than
/// [`CONNECT_ATTEMPTS`] times; then the connector gives up.
pub proof fn tries_are_bounded(events: Seq<ConnectEvent>)
    ensures
        connect_run(events).0 == if times_not_found(events) < CONNECT_ATTEMPTS {
            times_not_found(events)
        } else {
            CONNECT_ATTEMPTS as int
        },
        connect_step(connect_run(events).0, ConnectEvent::Ready).1 == if times_not_found(events)
            < CONNECT_ATTEMPTS {
            ConnectAction::Open
        } else {
            ConnectAction::TimedOut
        },
        connect_run(events).1.len() == events.len(),
    decreases events.len(),
{
    if events.len() > 0 {
        tries_are_bounded(events.drop_last());
    }
}

/// pty-host is started by the first try that does not find its pipe, and by no
/// other: there is never a second one.
pub proof fn host_is_started_once(events: Seq<ConnectEvent>, i: int)
    requires
        0 <= i < events.len(),
    ensures
        connect_run(events).1[i] is StartHostAndWait <==> is_not_found(events[i])
            && times_not_found(events.take(i)) == 0,
    decreases events.len(),
{
    tries_are_bounded(events.drop_last());
    if i < events.len() - 1 {
        host_is_started_once(events.drop_last(), i);
        assert(events.drop_last().take(i) =~= events.take(i));
    } else {
        assert(events.take(i) =~= events.drop_last());
        lemma_times_not_negative(events.drop_last());
    }
}

proof fn lemma_times_not_negative(events: Seq<ConnectEvent>)
    ensures
        times_not_found(events) >= 0,
    decreases events.len(),
{
    if events.len() > 0 {
        lemma_times_not_negative(events.drop_last());
    }
}

/// Only a pipe that does not exist is waited for, and it always is; any other error is
/// final, and so is success, however often the pipe was tried.
pub proof fn only_a_missing_pipe_is_waited_for(tries: int, code: Option<i32>)
    ensures
        connect_step(tries, ConnectEvent::Opened) == (tries, ConnectAction::Connected),
        code != Some(2i32) ==> connect_step(tries, ConnectEvent::Failed(code)) == (
            tries,
            ConnectAction::Fail,
        ),
        code == Some(2i32) && tries == 0 ==> connect_step(tries, ConnectEvent::Failed(code)) == (
            1int,
            ConnectAction::StartHostAndWait,
        ),
        code == Some(2i32) && 0 < tries < 30 ==> connect_step(tries, ConnectEvent::Failed(code))
            == (tries + 1, ConnectAction::Wait),
        code == Some(2i32) && tries >= 30 ==> connect_step(tries, ConnectEvent::Failed(code)) == (
            tries,
            ConnectAction::Wait,
        ),
        tries < 30 ==> connect_step(tries, ConnectEvent::Ready) == (tries, ConnectAction::Open),
        tries >= 30 ==> connect_step(tries, ConnectEvent::Ready) == (
            tries,
            ConnectAction::TimedOut,
        ),
{
}

} // verus!
