use termhost::host_connect::{ConnectAction, ConnectEvent, PipeConnector, CREATE_NO_WINDOW};
use termhost::pty_client::{
    answer, kill_reply, list_reply, lock_size_reply, resize_reply, screen_reply, spawn_reply,
    Delivery, LossStep, PtyHostClient, RequestError,
};
use termhost::pty_host::{acquire_single_instance, wide_name};
use termhost::pty_ipc::{PtyHostEvent, PtyHostRequest};

type Event = PtyHostEvent<u32>;
type Reply = Result<Event, RequestError>;

fn connected() -> PtyHostClient<&'static str> {
    match PtyHostClient::connect(Ok::<(), i32>(())) {
        Ok(client) => client,
        Err(e) => panic!("{e}"),
    }
}

#[test]
fn a_client_needs_a_pipe() {
    let client: Result<PtyHostClient<u8>, i32> = PtyHostClient::connect(Err(5));
    assert!(matches!(client, Err(5)));
}

#[test]
fn requests_are_numbered_from_one() {
    let mut client = connected();
    assert_eq!(
        client.spawn("w0", "t", "C:\\", Some("cmd"), 80, 24),
        Ok(PtyHostRequest::Spawn {
            seq: 1,
            id: "t".to_string(),
            cwd: "C:\\".to_string(),
            command: Some("cmd".to_string()),
            cols: 80,
            rows: 24,
        })
    );
    assert_eq!(
        client.resize("w1", "t", 100, 30),
        Ok(PtyHostRequest::Resize { seq: 2, id: "t".to_string(), cols: 100, rows: 30 })
    );
    assert_eq!(client.kill("w2", "t"), Ok(PtyHostRequest::Kill { seq: 3, id: "t".to_string() }));
    assert_eq!(client.screen("w3", "t"), Ok(PtyHostRequest::Screen { seq: 4, id: "t".to_string() }));
    assert_eq!(
        client.lock_size("w4", "t", 100, 30),
        Ok(PtyHostRequest::LockSize { seq: 5, id: "t".to_string(), cols: 100, rows: 30 })
    );
    assert_eq!(client.list("w5"), Ok(PtyHostRequest::List { seq: 6 }));
    assert_eq!(
        client.write("t", "ls\r"),
        Some(PtyHostRequest::Write { id: "t".to_string(), data: "ls\r".to_string() })
    );
    assert_eq!(client.seq(), 7);
}

#[test]
fn answers_reach_their_requests_once() {
    let mut client = connected();
    client.kill("first", "a").unwrap();
    client.kill("second", "b").unwrap();
    let done: Event = PtyHostEvent::Done { seq: 2 };
    assert_eq!(
        client.deliver(Some(done)),
        Delivery::Answer { waiter: "second", event: PtyHostEvent::Done { seq: 2 } }
    );
    assert_eq!(client.deliver(Some(Event::Done { seq: 2 })), Delivery::Ignore);
    assert_eq!(
        client.deliver(Some(Event::Error { seq: 1, message: "no".to_string() })),
        Delivery::Answer {
            waiter: "first",
            event: PtyHostEvent::Error { seq: 1, message: "no".to_string() }
        }
    );
    assert_eq!(client.deliver::<u32>(None), Delivery::Ignore);
    assert_eq!(client.deliver(Some(Event::SpawnResult { seq: 99 })), Delivery::Ignore);
}

#[test]
fn output_and_exits_are_handed_on() {
    let mut client = connected();
    client.list("w").unwrap();
    assert_eq!(
        client.deliver(Some(Event::Output { id: "t".to_string(), data: "x".to_string() })),
        Delivery::Output { id: "t".to_string(), data: "x".to_string() }
    );
    assert_eq!(
        client.deliver(Some(Event::Exited { id: "t".to_string() })),
        Delivery::Exited { id: "t".to_string() }
    );
    assert!(matches!(
        client.deliver(Some(Event::ListResult { seq: 1, terminals: vec![7] })),
        Delivery::Answer { waiter: "w", .. }
    ));
}

#[test]
fn a_lost_host_fails_requests_until_it_is_back() {
    let mut client = connected();
    client.kill("w", "a").unwrap();
    assert_eq!(client.connection_lost(), vec![LossStep::Record, LossStep::WakeSupervisor]);
    assert_eq!(client.deliver(Some(Event::Done { seq: 1 })), Delivery::Ignore);
    assert_eq!(client.kill("w", "a"), Err(RequestError::NotConnected));
    assert_eq!(client.request(9, "w"), Err(RequestError::NotConnected));
    assert_eq!(client.write("a", "x"), None);
    assert_eq!(client.reconnect(Err(5)), Err(5));
    assert_eq!(client.kill("w", "a"), Err(RequestError::NotConnected));
    assert_eq!(client.reconnect(Ok::<(), i32>(())), Ok(()));
    assert_eq!(client.kill("w", "a"), Ok(PtyHostRequest::Kill { seq: 4, id: "a".to_string() }));
}

#[test]
fn a_lost_host_stays_lost_whatever_happens() {
    let mut client = connected();
    client.kill("w", "a").unwrap();
    client.connection_lost();
    for round in 0..3u64 {
        assert_eq!(client.seq(), 2 + 2 * round);
        assert_eq!(client.list("w"), Err(RequestError::NotConnected));
        assert_eq!(client.request(1, "w"), Err(RequestError::NotConnected));
        assert_eq!(client.deliver(Some(Event::Done { seq: 1 })), Delivery::Ignore);
        assert_eq!(client.reconnect(Err(5)), Err(5));
        client.connection_lost();
    }
    assert_eq!(client.reconnect(Ok::<(), i32>(())), Ok(()));
    assert_eq!(client.list("w"), Ok(PtyHostRequest::List { seq: 8 }));
}

#[test]
fn a_request_waits_while_others_come_and_go() {
    let mut client = connected();
    client.kill("patient", "a").unwrap();
    for round in 0..3u64 {
        client.list("other").unwrap();
        let seq = 2 + round;
        assert!(matches!(
            client.deliver(Some(Event::ListResult { seq, terminals: vec![] })),
            Delivery::Answer { waiter: "other", .. }
        ));
        assert_eq!(client.deliver::<u32>(None), Delivery::Ignore);
        assert_eq!(client.reconnect(Ok::<(), i32>(())), Ok(()));
    }
    assert_eq!(
        client.deliver(Some(Event::Done { seq: 1 })),
        Delivery::Answer { waiter: "patient", event: PtyHostEvent::Done { seq: 1 } }
    );
}

#[test]
fn a_dropped_waiter_means_a_lost_connection() {
    let nothing: Option<Event> = None;
    assert_eq!(answer(nothing), Err(RequestError::ConnectionLost));
    assert_eq!(answer(Some(Event::Done { seq: 1 })), Ok(PtyHostEvent::Done { seq: 1 }));
}

#[test]
fn errors_are_worded() {
    assert_eq!(RequestError::NotConnected.message(), "pty-host is not connected");
    assert_eq!(RequestError::ConnectionLost.message(), "pty-host connection lost");
    assert_eq!(RequestError::Failed("broken".to_string()).message(), "broken");
}

#[test]
fn replies_are_understood() {
    let spawned: Reply = Ok(PtyHostEvent::SpawnResult { seq: 1 });
    assert_eq!(spawn_reply(spawned), Ok(()));
    let failed = || -> Reply { Ok(PtyHostEvent::Error { seq: 1, message: "no shell".to_string() }) };
    let done = || -> Reply { Ok(PtyHostEvent::Done { seq: 1 }) };
    let lost = || -> Reply { Err(RequestError::ConnectionLost) };
    assert_eq!(spawn_reply(failed()), Err("no shell".to_string()));
    assert_eq!(spawn_reply(done()), Err("unexpected response".to_string()));
    assert_eq!(spawn_reply(lost()), Err("pty-host connection lost".to_string()));
    for reply in [resize_reply::<u32>, kill_reply::<u32>] {
        assert_eq!(reply(done()), Ok(()));
        assert_eq!(reply(failed()), Err("no shell".to_string()));
        assert_eq!(reply(lost()), Err("pty-host connection lost".to_string()));
        assert_eq!(
            reply(Ok(PtyHostEvent::SpawnResult { seq: 1 })),
            Err("unexpected response".to_string())
        );
    }
    let screen = |data: Option<String>| -> Reply {
        Ok(PtyHostEvent::ScreenResult { seq: 1, data, cols: 80, rows: 24 })
    };
    assert_eq!(screen_reply(screen(Some("$ ".to_string()))), Some(("$ ".to_string(), 80, 24)));
    assert_eq!(screen_reply(screen(None)), None);
    assert_eq!(screen_reply(done()), None);
    assert!(lock_size_reply(done()));
    assert!(!lock_size_reply(failed()));
    assert!(!lock_size_reply(lost()));
    assert_eq!(list_reply(Ok(PtyHostEvent::ListResult { seq: 1, terminals: vec![4, 5] })), vec![4, 5]);
    assert_eq!(list_reply(done()), Vec::<u32>::new());
}

#[test]
fn the_host_is_started_once_and_waited_for() {
    let mut connector = PipeConnector::new();
    assert_eq!(connector.next(ConnectEvent::Ready), ConnectAction::Open);
    assert_eq!(connector.next(ConnectEvent::Failed(Some(2))), ConnectAction::StartHostAndWait);
    for _ in 1..30 {
        assert_eq!(connector.next(ConnectEvent::Ready), ConnectAction::Open);
        assert_eq!(connector.next(ConnectEvent::Failed(Some(2))), ConnectAction::Wait);
    }
    assert_eq!(connector.next(ConnectEvent::Ready), ConnectAction::TimedOut);
}

#[test]
fn other_errors_end_the_attempt() {
    let mut connector = PipeConnector::new();
    assert_eq!(connector.next(ConnectEvent::Failed(Some(5))), ConnectAction::Fail);
    assert_eq!(connector.next(ConnectEvent::Failed(None)), ConnectAction::Fail);
    assert_eq!(connector.next(ConnectEvent::Opened), ConnectAction::Connected);
    assert_eq!(CREATE_NO_WINDOW, 0x0800_0000);
}

#[test]
fn only_one_host_runs() {
    assert!(acquire_single_instance(12, 0));
    assert!(!acquire_single_instance(12, 183));
    assert!(acquire_single_instance(0, 183));
}

#[test]
fn names_are_widened_as_in_std() {
    for name in ["", "Global\\termhost", "é中😀\u{FFFF}\u{10000}\u{10FFFF}"] {
        assert_eq!(wide_name(name), name.encode_utf16().collect::<Vec<u16>>());
    }
    assert_eq!(wide_name("a😀"), vec![0x61, 0xD83D, 0xDE00]);
}
