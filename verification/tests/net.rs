use rustyroad::net::server::engine::{EngineAction, EngineOption};
use rustyroad::net::server::session::{
    Inbound, Session, SessionAction, SessionEvent, SessionPhase,
};
use rustyroad::net::server::{Engine, EnginePhase, ServerSignal};
use rustyroad::pk2::errors::Error;

type Channels = &'static str;

fn running() -> Engine<Channels> {
    let mut engine: Engine<Channels> = Engine::new(Vec::new());
    engine.start(Ok(())).unwrap();
    engine
}

fn frame_of(bytes: &[u8]) -> [u8; 4096] {
    let mut frame = [0u8; 4096];
    frame[..bytes.len()].copy_from_slice(bytes);
    frame
}

/// The sessions that a run of actions has announced and not closed since.
fn live(actions: &[EngineAction]) -> Vec<u128> {
    let mut ids: Vec<u128> = Vec::new();
    for action in actions {
        match action {
            EngineAction::Publish(ServerSignal::NewConnection(id)) => {
                if !ids.contains(id) {
                    ids.push(*id);
                }
            }
            EngineAction::Publish(ServerSignal::ClosedConnection(id)) => ids.retain(|x| x != id),
            _ => {}
        }
    }
    ids
}

#[test]
fn engine_binds_to_all_interfaces_on_8080_by_default() {
    let engine: Engine<Channels> = Engine::new(Vec::new());
    assert_eq!(engine.bind_host, "0.0.0.0");
    assert_eq!(engine.bind_port, 8080);
    assert_eq!(engine.bind_address(), "0.0.0.0:8080");
    assert_eq!(engine.session_count(), 0);
    assert_eq!(engine.phase, EnginePhase::Created);
}

#[test]
fn engine_takes_the_last_of_its_options() {
    let engine: Engine<Channels> = Engine::new(vec![
        EngineOption::Port(1),
        EngineOption::Host("localhost".to_string()),
        EngineOption::Port(15779),
        EngineOption::Host("127.0.0.1".to_string()),
    ]);
    assert_eq!(engine.bind_address(), "127.0.0.1:15779");
    let only_port: Engine<Channels> = Engine::new(vec![EngineOption::Port(9)]);
    assert_eq!(only_port.bind_address(), "0.0.0.0:9");
}

#[test]
fn bind_address_writes_the_port_in_decimal() {
    for port in [0u16, 7, 10, 99, 100, 1000, 8080, 10000, 65535] {
        let engine: Engine<Channels> =
            Engine::new(vec![EngineOption::Host("h".to_string()), EngineOption::Port(port)]);
        assert_eq!(engine.bind_address(), format!("h:{}", port));
    }
}

#[test]
fn start_signals_started() {
    let mut engine: Engine<Channels> = Engine::new(Vec::new());
    let asked = engine.start(Ok(())).unwrap();
    assert_eq!(asked, vec![EngineAction::Publish(ServerSignal::Started)]);
    assert_eq!(engine.phase, EnginePhase::Running);
    assert_eq!(engine.start(Ok(())).unwrap(), vec![]);
    assert_eq!(engine.start(Err("late".to_string())).unwrap(), vec![]);
    assert_eq!(engine.phase, EnginePhase::Running);
}

#[test]
fn start_returns_the_bind_failure_and_never_signals() {
    let mut engine: Engine<Channels> = Engine::new(Vec::new());
    let failed = engine.start(Err("Address already in use".to_string()));
    assert!(matches!(failed, Err(Error::IO(cause)) if cause == "Address already in use"));
    assert_eq!(engine.phase, EnginePhase::Stopped);
    assert_eq!(engine.start(Ok(())).unwrap(), vec![]);
    assert_eq!(engine.announce(1), vec![]);
    assert_eq!(engine.accept(), vec![]);
    assert_eq!(engine.register(1, "x"), vec![]);
    assert_eq!(engine.disconnected(1), vec![]);
    assert_eq!(engine.accept_failed("x".to_string()), vec![]);
    assert_eq!(engine.session_count(), 0);
}

#[test]
fn engine_waits_for_start() {
    let mut engine: Engine<Channels> = Engine::new(Vec::new());
    assert_eq!(engine.announce(1), vec![]);
    assert_eq!(engine.disconnected(1), vec![]);
    assert_eq!(engine.accept_failed("early".to_string()), vec![]);
    assert_eq!(engine.phase, EnginePhase::Created);
}

#[test]
fn accepted_connection_is_announced_then_registered() {
    let mut engine = running();
    assert_eq!(
        engine.announce(42),
        vec![
            EngineAction::Publish(ServerSignal::NewConnection(42)),
            EngineAction::StartSession(42),
        ]
    );
    assert_eq!(engine.phase, EnginePhase::Starting(42));
    assert_eq!(engine.session_count(), 0);
    assert_eq!(engine.register(7, "other"), vec![]);
    assert_eq!(engine.register(42, "channels"), vec![EngineAction::SetSessionsGauge(1)]);
    assert_eq!(engine.phase, EnginePhase::Running);
    assert_eq!(engine.sessions.get(&42), Some(&"channels"));
    assert_eq!(engine.register(42, "again"), vec![]);
    assert_eq!(engine.sessions.get(&42), Some(&"channels"));
}

#[test]
fn accept_mints_random_version_4_identifiers() {
    let mut ids = Vec::new();
    for _ in 0..8 {
        let mut engine = running();
        let asked = engine.accept();
        assert_eq!(asked.len(), 2);
        let id = match &asked[0] {
            EngineAction::Publish(ServerSignal::NewConnection(id)) => *id,
            other => panic!("unexpected action {:?}", other),
        };
        assert_eq!(asked[1], EngineAction::StartSession(id));
        assert_eq!(engine.phase, EnginePhase::Starting(id));
        assert_eq!((id >> 76) & 0xF, 4);
        assert_eq!((id >> 62) & 0x3, 2);
        assert_eq!(uuid::Uuid::from_u128(id).get_version_num(), 4);
        assert!(!ids.contains(&id));
        ids.push(id);
    }
}

#[test]
fn disconnect_is_signalled_and_unregisters() {
    let mut engine = running();
    engine.announce(1);
    engine.register(1, "one");
    engine.announce(2);
    engine.register(2, "two");
    assert_eq!(engine.session_count(), 2);
    assert_eq!(
        engine.disconnected(1),
        vec![
            EngineAction::Publish(ServerSignal::ClosedConnection(1)),
            EngineAction::SetSessionsGauge(1),
        ]
    );
    assert!(engine.sessions.get(&1).is_none());
    assert_eq!(engine.sessions.get(&2), Some(&"two"));
    assert_eq!(
        engine.disconnected(99),
        vec![
            EngineAction::Publish(ServerSignal::ClosedConnection(99)),
            EngineAction::SetSessionsGauge(1),
        ]
    );
}

#[test]
fn failed_accept_shuts_the_engine_down() {
    let mut engine = running();
    engine.announce(1);
    engine.register(1, "one");
    assert_eq!(
        engine.accept_failed("too many open files".to_string()),
        vec![
            EngineAction::Publish(ServerSignal::Shutdown("too many open files".to_string())),
            EngineAction::CloseControl,
            EngineAction::CountFailedAccept,
        ]
    );
    assert_eq!(engine.phase, EnginePhase::Stopped);
    assert_eq!(engine.announce(2), vec![]);
    assert_eq!(engine.disconnected(1), vec![]);
    assert_eq!(engine.accept_failed("again".to_string()), vec![]);
    assert_eq!(engine.session_count(), 1);
}

#[test]
fn registry_holds_the_live_sessions() {
    let mut engine = running();
    let mut asked: Vec<EngineAction> = Vec::new();
    let script: [(bool, u128); 9] = [
        (true, 1),
        (true, 2),
        (false, 1),
        (true, 3),
        (false, 7),
        (true, 2),
        (false, 2),
        (false, 3),
        (true, 1),
    ];
    for (connect, id) in script {
        if connect {
            asked.extend(engine.announce(id));
            asked.extend(engine.register(id, "c"));
        } else {
            asked.extend(engine.disconnected(id));
        }
        let mut registered: Vec<u128> = engine.sessions.keys().copied().collect();
        registered.sort();
        let mut expected = live(&asked);
        expected.sort();
        assert_eq!(registered, expected);
        assert_eq!(engine.session_count(), expected.len());
        assert_eq!(asked.last(), Some(&EngineAction::SetSessionsGauge(expected.len())));
    }
    assert_eq!(engine.session_count(), 1);
}

#[test]
fn session_starts_idle() {
    let session = Session::new(5);
    assert_eq!(session.id, 5);
    assert_eq!(session.phase, SessionPhase::Idle);
    assert!(!session.is_closed());
}

#[test]
fn read_of_no_bytes_closes_without_a_frame() {
    let mut session = Session::new(5);
    assert_eq!(session.read([0u8; 4096], 0), vec![SessionAction::Disconnect(5)]);
    assert!(session.is_closed());
}

#[test]
fn read_bytes_are_published_then_counted() {
    let mut session = Session::new(5);
    let frame = frame_of(b"hello");
    assert_eq!(
        session.read(frame, 5),
        vec![SessionAction::Publish(Inbound { id: 5, frame, len: 5 })]
    );
    assert_eq!(session.phase, SessionPhase::Publishing(5));
    assert_eq!(session.published(true), vec![SessionAction::CountReceived(5)]);
    assert_eq!(session.phase, SessionPhase::Idle);
    let full = [0xFFu8; 4096];
    assert_eq!(
        session.read(full, 4096),
        vec![SessionAction::Publish(Inbound { id: 5, frame: full, len: 4096 })]
    );
    assert_eq!(session.published(true), vec![SessionAction::CountReceived(4096)]);
}

#[test]
fn read_beyond_the_frame_is_ignored() {
    let mut session = Session::new(5);
    assert_eq!(session.read([0u8; 4096], 4097), vec![]);
    assert_eq!(session.phase, SessionPhase::Idle);
}

#[test]
fn unpublished_frame_closes_the_session() {
    let mut session = Session::new(5);
    session.read(frame_of(b"x"), 1);
    assert_eq!(session.published(false), vec![SessionAction::Disconnect(5)]);
    assert!(session.is_closed());
}

#[test]
fn failed_read_closes_the_session() {
    let mut session = Session::new(6);
    assert_eq!(session.read_failed(), vec![SessionAction::Disconnect(6)]);
    assert!(session.is_closed());
}

#[test]
fn interrupt_closes_the_session() {
    let mut session = Session::new(7);
    assert_eq!(session.interrupted(), vec![SessionAction::Disconnect(7)]);
    assert!(session.is_closed());
}

#[test]
fn outgoing_frame_is_written_then_counted() {
    let mut session = Session::new(8);
    let frame = frame_of(b"out");
    assert_eq!(session.outgoing(Some(frame)), vec![SessionAction::Write(frame)]);
    assert_eq!(session.phase, SessionPhase::Writing);
    assert_eq!(session.written(true), vec![SessionAction::CountSent(4096)]);
    assert_eq!(session.phase, SessionPhase::Idle);
}

#[test]
fn failed_write_closes_queue_and_session() {
    let mut session = Session::new(8);
    session.outgoing(Some(frame_of(b"out")));
    assert_eq!(
        session.written(false),
        vec![SessionAction::CloseOutgoing, SessionAction::Disconnect(8)]
    );
    assert!(session.is_closed());
}

#[test]
fn closed_outgoing_queue_closes_the_session() {
    let mut session = Session::new(9);
    assert_eq!(session.outgoing(None), vec![SessionAction::Disconnect(9)]);
    assert!(session.is_closed());
}

#[test]
fn session_disconnects_once() {
    let mut session = Session::new(9);
    let mut asked = session.interrupted();
    asked.extend(session.interrupted());
    asked.extend(session.read(frame_of(b"late"), 4));
    asked.extend(session.read([0u8; 4096], 0));
    asked.extend(session.read_failed());
    asked.extend(session.published(true));
    asked.extend(session.published(false));
    asked.extend(session.outgoing(Some([1u8; 4096])));
    asked.extend(session.outgoing(None));
    asked.extend(session.written(true));
    asked.extend(session.written(false));
    assert_eq!(asked, vec![SessionAction::Disconnect(9)]);
}

#[test]
fn session_ignores_what_it_does_not_wait_for() {
    let mut session = Session::new(3);
    assert_eq!(session.published(true), vec![]);
    assert_eq!(session.written(false), vec![]);
    session.read(frame_of(b"a"), 1);
    assert_eq!(session.interrupted(), vec![]);
    assert_eq!(session.read(frame_of(b"b"), 1), vec![]);
    assert_eq!(session.read_failed(), vec![]);
    assert_eq!(session.outgoing(None), vec![]);
    assert_eq!(session.written(true), vec![]);
    assert_eq!(session.phase, SessionPhase::Publishing(1));
}

#[test]
fn step_takes_every_event() {
    let frame = frame_of(b"abc");
    let mut session = Session::new(4);
    let script = [
        (SessionEvent::Read(frame, 3), vec![SessionAction::Publish(Inbound { id: 4, frame, len: 3 })]),
        (SessionEvent::Published(true), vec![SessionAction::CountReceived(3)]),
        (SessionEvent::Outgoing(Some(frame)), vec![SessionAction::Write(frame)]),
        (SessionEvent::Written(true), vec![SessionAction::CountSent(4096)]),
        (SessionEvent::Written(true), vec![]),
        (SessionEvent::ReadFailed, vec![SessionAction::Disconnect(4)]),
        (SessionEvent::Interrupted, vec![]),
        (SessionEvent::Outgoing(None), vec![]),
    ];
    for (event, expected) in script {
        assert_eq!(session.step(event), expected);
    }
    assert!(session.is_closed());
    let mut other = Session::new(4);
    assert_eq!(other.step(SessionEvent::Interrupted), vec![SessionAction::Disconnect(4)]);
}

#[test]
fn one_client_sends_100_bytes_and_closes() {
    let mut engine: Engine<Channels> = Engine::new(Vec::new());
    let mut observed: Vec<String> = Vec::new();
    let mut frames: Vec<Inbound> = Vec::new();
    let mut run = engine.start(Ok(())).unwrap();
    run.extend(engine.announce(0xC0FFEE));
    let mut session = Session::new(0xC0FFEE);
    run.extend(engine.register(session.id, "channels"));
    let mut asked = session.read(frame_of(&[0xAA; 100]), 100);
    asked.extend(session.published(true));
    asked.extend(session.read([0u8; 4096], 0));
    for action in asked {
        match action {
            SessionAction::Publish(inbound) => {
                observed.push(format!("frame {:x}", inbound.id));
                frames.push(inbound);
            }
            SessionAction::Disconnect(id) => run.extend(engine.disconnected(id)),
            _ => {}
        }
    }
    let signals: Vec<&ServerSignal> = run
        .iter()
        .filter_map(|a| if let EngineAction::Publish(s) = a { Some(s) } else { None })
        .collect();
    assert_eq!(
        signals,
        vec![
            &ServerSignal::Started,
            &ServerSignal::NewConnection(0xC0FFEE),
            &ServerSignal::ClosedConnection(0xC0FFEE),
        ]
    );
    assert_eq!(frames.len(), 1);
    assert_eq!(frames[0].id, 0xC0FFEE);
    assert_eq!(frames[0].len, 100);
    assert!(frames[0].frame[..100].iter().all(|b| *b == 0xAA));
    assert_eq!(engine.session_count(), 0);
}

#[test]
fn two_clients_keep_their_own_order() {
    let mut a = Session::new(1);
    let mut b = Session::new(2);
    let mut published: Vec<Inbound> = Vec::new();
    let chunks: [(u128, &[u8]); 6] =
        [(1, b"a1"), (2, b"b1"), (2, b"b2"), (1, b"a2"), (2, b"b3"), (1, b"a3")];
    for (id, bytes) in chunks {
        let session = if id == 1 { &mut a } else { &mut b };
        for action in session.read(frame_of(bytes), bytes.len()) {
            if let SessionAction::Publish(inbound) = action {
                published.push(inbound);
            }
        }
        session.published(true);
    }
    let of = |id: u128| -> Vec<u8> {
        published
            .iter()
            .filter(|f| f.id == id)
            .flat_map(|f| f.frame[..f.len].to_vec())
            .collect()
    };
    assert_eq!(of(1), b"a1a2a3");
    assert_eq!(of(2), b"b1b2b3");
    assert_eq!(published.len(), 6);
}

#[test]
fn published_prefixes_are_the_bytes_of_the_connection() {
    let sent: Vec<u8> = (0..10000u32).map(|i| (i % 253) as u8).collect();
    let mut session = Session::new(11);
    let mut got: Vec<u8> = Vec::new();
    let mut disconnects = 0;
    let mut rest: &[u8] = &sent;
    let sizes = [1usize, 4096, 7, 4096, 1800];
    let mut turn = 0;
    loop {
        let n = sizes[turn % sizes.len()].min(rest.len());
        turn += 1;
        let asked = session.read(frame_of(&rest[..n]), n);
        rest = &rest[n..];
        for action in asked {
            match action {
                SessionAction::Publish(inbound) => {
                    assert_eq!(inbound.id, 11);
                    got.extend_from_slice(&inbound.frame[..inbound.len]);
                    assert_eq!(session.published(true).len(), 1);
                }
                SessionAction::Disconnect(id) => {
                    assert_eq!(id, 11);
                    disconnects += 1;
                }
                other => panic!("unexpected action {:?}", other),
            }
        }
        if n == 0 {
            break;
        }
    }
    assert_eq!(got, sent);
    assert_eq!(disconnects, 1);
}
