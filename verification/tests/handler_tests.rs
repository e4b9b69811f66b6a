use tcp_reactor::Token;
use tcp_reactor::handler::ConnectStart;
use tcp_reactor::handler::Effect;
use tcp_reactor::handler::Handler;
use tcp_reactor::handler::Interest;
use tcp_reactor::handler::ReadHint;
use tcp_reactor::handler::TokenKind;
use tcp_reactor::message::Addr;
use tcp_reactor::message::Input;
use tcp_reactor::message::IoErr;
use tcp_reactor::message::Output;
use tcp_reactor::token_factory::SequentialFactory;

fn addr() -> Addr {
    Addr { v6: false, ip: 0x7f000001, port: 9000 }
}

fn err(msg: &str) -> IoErr {
    IoErr { message: msg.to_string() }
}

fn rhe() -> Interest {
    Interest { readable: true, writable: false, hup: true, error: true }
}

fn rwhe() -> Interest {
    Interest { readable: true, writable: true, hup: true, error: true }
}

fn whe() -> Interest {
    Interest { readable: false, writable: true, hup: true, error: true }
}

fn fresh() -> Handler {
    Handler::new(SequentialFactory::new())
}

/// A handler with one established client under the given token.
fn with_client(token: Token) -> Handler {
    let mut h = fresh();
    let (outs, effs) = h.proc_connect_request(token, addr(), Ok(ConnectStart::Complete));
    assert_eq!(outs, vec![Output::ConnectResponse { token }]);
    assert_eq!(effs, vec![Effect::Register { token, interest: rhe() }]);
    h
}

#[test]
fn listen_request_success() {
    let mut h = fresh();
    let t = Token(1);
    let (outs, effs) = h.proc_listen_request(t, addr(), Ok(()));
    assert_eq!(outs, vec![Output::ListenResponse { listener: t }]);
    assert_eq!(effs, vec![Effect::Register { token: t, interest: rhe() }]);
    assert_eq!(h.kind_of(t), TokenKind::Listener);
}

#[test]
fn listen_request_failure_emits_dirty_close() {
    let mut h = fresh();
    let t = Token(1);
    let (outs, effs) = h.proc_listen_request(t, addr(), Err(err("bind refused")));
    assert_eq!(outs, vec![Output::DirtyClose { token: t, reason: Some(err("bind refused")) }]);
    assert!(effs.is_empty());
    assert_eq!(h.kind_of(t), TokenKind::Unknown);
}

#[test]
fn listen_request_busy_token_is_ignored() {
    let mut h = with_client(Token(1));
    let (outs, effs) = h.proc_listen_request(Token(1), addr(), Ok(()));
    assert!(outs.is_empty());
    assert!(effs.is_empty());
    assert_eq!(h.kind_of(Token(1)), TokenKind::Client);
}

#[test]
fn connect_request_in_progress_parks_pending() {
    let mut h = fresh();
    let t = Token(1);
    let (outs, effs) = h.proc_connect_request(t, addr(), Ok(ConnectStart::InProgress));
    assert!(outs.is_empty());
    assert_eq!(effs, vec![Effect::Register { token: t, interest: whe() }]);
    assert_eq!(h.kind_of(t), TokenKind::Pending);
}

#[test]
fn connect_request_complete_installs_client() {
    let mut h = fresh();
    let t = Token(1);
    let (outs, effs) = h.proc_connect_request(t, addr(), Ok(ConnectStart::Complete));
    assert_eq!(outs, vec![Output::ConnectResponse { token: t }]);
    assert_eq!(effs, vec![Effect::Register { token: t, interest: rhe() }]);
    assert_eq!(h.kind_of(t), TokenKind::Client);
}

#[test]
fn connect_request_failure_emits_dirty_close() {
    let mut h = fresh();
    let t = Token(1);
    let (outs, effs) = h.proc_connect_request(t, addr(), Err(err("unreachable")));
    assert_eq!(outs, vec![Output::DirtyClose { token: t, reason: Some(err("unreachable")) }]);
    assert!(effs.is_empty());
    assert_eq!(h.kind_of(t), TokenKind::Unknown);
}

#[test]
fn data_queues_and_schedules_flush() {
    let mut h = with_client(Token(1));
    let (outs, effs) = h.notify(Input::Data { token: Token(1), data: b"hello".to_vec() });
    assert!(outs.is_empty());
    assert_eq!(effs, vec![Effect::Flush { token: Token(1), data: b"hello".to_vec() }]);
    let c = h.clients.get(Token(1)).unwrap();
    assert_eq!(c.stats.bytes_written_queued, 5);
}

#[test]
fn data_for_unknown_token_is_ignored() {
    let mut h = fresh();
    let (outs, effs) = h.notify(Input::Data { token: Token(7), data: b"x".to_vec() });
    assert!(outs.is_empty());
    assert!(effs.is_empty());
}

#[test]
fn flush_would_block_enables_write_interest() {
    let mut h = with_client(Token(1));
    h.proc_data(Token(1), b"hello".to_vec());
    let (outs, effs) = h.try_flush(Token(1), Ok(None));
    assert!(outs.is_empty());
    assert_eq!(effs, vec![Effect::Reregister { token: Token(1), interest: rwhe() }]);
    let c = h.clients.get(Token(1)).unwrap();
    assert!(c.waiting_for_write);
    assert_eq!(c.stats.blocked_writes, 1);
    // Write-interest correspondence: the selector registration mirrors it.
    assert_eq!(*h.selector.get(Token(1)).unwrap(), rwhe());
}

#[test]
fn flush_success_disables_write_interest() {
    let mut h = with_client(Token(1));
    h.proc_data(Token(1), b"hello".to_vec());
    h.try_flush(Token(1), Ok(None));
    let (outs, effs) = h.try_flush(Token(1), Ok(Some(5)));
    assert!(outs.is_empty());
    assert_eq!(effs, vec![Effect::Reregister { token: Token(1), interest: rhe() }]);
    let c = h.clients.get(Token(1)).unwrap();
    assert!(!c.waiting_for_write);
    assert!(c.write_buffer.is_empty());
    assert_eq!(c.stats.bytes_written, 5);
    assert_eq!(*h.selector.get(Token(1)).unwrap(), rhe());
}

#[test]
fn flush_zero_bytes_keeps_write_interest() {
    let mut h = with_client(Token(1));
    h.proc_data(Token(1), b"hello".to_vec());
    h.try_flush(Token(1), Ok(None));
    assert!(h.clients.get(Token(1)).unwrap().waiting_for_write);
    // The peer advertises writability but accepts nothing: no toggle.
    let (outs, effs) = h.try_flush(Token(1), Ok(Some(0)));
    assert!(outs.is_empty());
    assert!(effs.is_empty());
    let c = h.clients.get(Token(1)).unwrap();
    assert!(c.waiting_for_write);
    assert_eq!(c.stats.blocked_writes, 1);
    assert_eq!(*h.selector.get(Token(1)).unwrap(), rwhe());
}

#[test]
fn flush_zero_bytes_with_data_turns_write_interest_on() {
    let mut h = with_client(Token(1));
    h.proc_data(Token(1), b"hello".to_vec());
    let (outs, effs) = h.try_flush(Token(1), Ok(Some(0)));
    assert!(outs.is_empty());
    assert_eq!(effs, vec![Effect::Reregister { token: Token(1), interest: rwhe() }]);
    assert!(h.clients.get(Token(1)).unwrap().waiting_for_write);
}

#[test]
fn flush_error_is_dirty_disconnect() {
    let mut h = with_client(Token(1));
    h.proc_data(Token(1), b"hello".to_vec());
    let (outs, effs) = h.try_flush(Token(1), Err(err("broken pipe")));
    assert_eq!(outs, vec![Output::DirtyClose {
        token: Token(1),
        reason: Some(err("broken pipe")),
    }]);
    assert_eq!(effs, vec![Effect::Deregister { token: Token(1) }]);
    assert_eq!(h.kind_of(Token(1)), TokenKind::Unknown);
}

#[test]
fn flush_for_stale_token_is_ignored() {
    let mut h = fresh();
    let (outs, effs) = h.try_flush(Token(9), Ok(Some(0)));
    assert!(outs.is_empty());
    assert!(effs.is_empty());
}

#[test]
fn stats_request_known_token_snapshots() {
    let mut h = with_client(Token(1));
    h.proc_data(Token(1), b"hey".to_vec());
    let outs = h.proc_stats_request(Token(1));
    assert_eq!(outs.len(), 1);
    match &outs[0] {
        Output::StatisticsResponse { token, stats } => {
            assert_eq!(*token, Token(1));
            assert_eq!(stats.bytes_written_queued, 3);
            assert_eq!(stats.bytes_written, 0);
        },
        other => panic!("unexpected output: {:?}", other),
    }
}

#[test]
fn stats_request_unknown_token_emits_nothing() {
    let h = fresh();
    let outs = h.proc_stats_request(Token(42));
    assert!(outs.is_empty());
}

#[test]
fn close_clean_emits_close() {
    let mut h = with_client(Token(1));
    let (outs, effs) = h.proc_close(Token(1), false, None);
    assert_eq!(outs, vec![Output::Close { token: Token(1) }]);
    assert_eq!(effs, vec![Effect::Deregister { token: Token(1) }]);
    assert_eq!(h.kind_of(Token(1)), TokenKind::Unknown);
}

#[test]
fn close_dirty_emits_dirty_close_with_reason() {
    let mut h = with_client(Token(1));
    let (outs, effs) = h.proc_close(Token(1), true, Some(err("reset")));
    assert_eq!(outs, vec![Output::DirtyClose { token: Token(1), reason: Some(err("reset")) }]);
    assert_eq!(effs, vec![Effect::Deregister { token: Token(1) }]);
}

#[test]
fn close_listener_emits_close() {
    let mut h = fresh();
    h.proc_listen_request(Token(1), addr(), Ok(()));
    let (outs, effs) = h.proc_close(Token(1), false, None);
    assert_eq!(outs, vec![Output::Close { token: Token(1) }]);
    assert_eq!(effs, vec![Effect::Deregister { token: Token(1) }]);
    assert_eq!(h.kind_of(Token(1)), TokenKind::Unknown);
}

#[test]
fn close_pending_token_is_ignored() {
    let mut h = fresh();
    h.proc_connect_request(Token(1), addr(), Ok(ConnectStart::InProgress));
    let (outs, effs) = h.proc_close(Token(1), false, None);
    assert!(outs.is_empty());
    assert!(effs.is_empty());
    assert_eq!(h.kind_of(Token(1)), TokenKind::Pending);
}

#[test]
fn close_unknown_token_is_silent() {
    let mut h = fresh();
    let (outs, effs) = h.proc_close(Token(3), false, None);
    assert!(outs.is_empty());
    assert!(effs.is_empty());
}

#[test]
fn close_twice_emits_at_most_one_output() {
    let mut h = with_client(Token(1));
    let (outs1, _) = h.proc_close(Token(1), false, None);
    assert_eq!(outs1.len(), 1);
    let (outs2, effs2) = h.proc_close(Token(1), false, None);
    assert!(outs2.is_empty());
    assert!(effs2.is_empty());
    let (outs3, _) = h.proc_close(Token(1), true, Some(err("again")));
    assert!(outs3.is_empty());
}

#[test]
fn readable_data_then_hup_is_data_then_clean_close() {
    let mut h = with_client(Token(1));
    let hint = ReadHint { error: false, hup: true };
    let (outs, effs) = h.readable(Token(1), hint, Ok(vec![b"ping".to_vec()]));
    assert_eq!(outs, vec![
        Output::Data { token: Token(1), data: b"ping".to_vec() },
        Output::Close { token: Token(1) },
    ]);
    assert_eq!(effs, vec![Effect::Deregister { token: Token(1) }]);
    assert_eq!(h.kind_of(Token(1)), TokenKind::Unknown);
}

#[test]
fn readable_error_hint_is_dirty_close() {
    let mut h = with_client(Token(1));
    let hint = ReadHint { error: true, hup: false };
    let (outs, effs) = h.readable(Token(1), hint, Ok(Vec::new()));
    assert_eq!(outs, vec![Output::DirtyClose { token: Token(1), reason: None }]);
    assert_eq!(effs, vec![Effect::Deregister { token: Token(1) }]);
}

#[test]
fn readable_read_error_is_dirty_close_with_reason() {
    let mut h = with_client(Token(1));
    let hint = ReadHint { error: false, hup: false };
    let (outs, effs) = h.readable(Token(1), hint, Err(err("connection reset")));
    assert_eq!(outs, vec![Output::DirtyClose {
        token: Token(1),
        reason: Some(err("connection reset")),
    }]);
    assert_eq!(effs, vec![Effect::Deregister { token: Token(1) }]);
}

#[test]
fn readable_zero_read_then_hup_closes_without_data() {
    let mut h = with_client(Token(1));
    let hint = ReadHint { error: false, hup: true };
    let (outs, effs) = h.readable(Token(1), hint, Ok(vec![Vec::new()]));
    assert_eq!(outs, vec![Output::Close { token: Token(1) }]);
    assert_eq!(effs, vec![Effect::Deregister { token: Token(1) }]);
}

#[test]
fn readable_zero_read_without_hup_emits_nothing() {
    let mut h = with_client(Token(1));
    let hint = ReadHint { error: false, hup: false };
    let (outs, effs) = h.readable(Token(1), hint, Ok(vec![Vec::new()]));
    assert!(outs.is_empty());
    assert!(effs.is_empty());
    assert_eq!(h.kind_of(Token(1)), TokenKind::Client);
}

#[test]
fn readable_stale_token_is_ignored() {
    let mut h = fresh();
    let hint = ReadHint { error: false, hup: false };
    let (outs, effs) = h.readable(Token(5), hint, Ok(vec![b"x".to_vec()]));
    assert!(outs.is_empty());
    assert!(effs.is_empty());
}

#[test]
fn accept_installs_and_notifies() {
    // The consumer pre-allocates the listener token from the same factory,
    // so tokens minted for accepted peers never collide with it.
    let mut factory = SequentialFactory::new();
    let t1 = factory.produce();
    let mut h = Handler::new(factory);
    h.proc_listen_request(t1, addr(), Ok(()));
    let peer = Addr { v6: false, ip: 0x7f000001, port: 33000 };
    let (outs, effs) = h.accept(t1, Ok(Some(peer)));
    assert_eq!(outs.len(), 1);
    match &outs[0] {
        Output::ConnectRequest { listener, client, addr: a } => {
            assert_eq!(*listener, t1);
            assert!(client.0 >= 2);
            assert_eq!(*a, peer);
            assert_eq!(effs, vec![Effect::Register { token: *client, interest: rhe() }]);
            assert_eq!(h.kind_of(*client), TokenKind::Client);
        },
        other => panic!("unexpected output: {:?}", other),
    }
}

#[test]
fn accept_would_block_and_failure_are_silent() {
    let mut h = fresh();
    h.proc_listen_request(Token(1), addr(), Ok(()));
    let (outs, effs) = h.accept(Token(1), Ok(None));
    assert!(outs.is_empty() && effs.is_empty());
    let (outs, effs) = h.accept(Token(1), Err(err("accept failed")));
    assert!(outs.is_empty() && effs.is_empty());
    let (outs, effs) = h.accept(Token(9), Ok(Some(addr())));
    assert!(outs.is_empty() && effs.is_empty());
}

#[test]
fn writable_promotes_pending_client() {
    let mut h = fresh();
    h.proc_connect_request(Token(1), addr(), Ok(ConnectStart::InProgress));
    let (outs, effs) = h.writable(Token(1));
    assert_eq!(outs, vec![Output::ConnectResponse { token: Token(1) }]);
    assert_eq!(effs, vec![Effect::Reregister { token: Token(1), interest: rhe() }]);
    assert_eq!(h.kind_of(Token(1)), TokenKind::Client);
}

#[test]
fn writable_when_waiting_schedules_flush() {
    let mut h = with_client(Token(1));
    h.proc_data(Token(1), b"abc".to_vec());
    h.try_flush(Token(1), Ok(None));
    let (outs, effs) = h.writable(Token(1));
    assert!(outs.is_empty());
    assert_eq!(effs, vec![Effect::Flush { token: Token(1), data: b"abc".to_vec() }]);
}

#[test]
fn writable_spurious_wake_is_ignored() {
    let mut h = with_client(Token(1));
    let (outs, effs) = h.writable(Token(1));
    assert!(outs.is_empty());
    assert!(effs.is_empty());
    let (outs, effs) = h.writable(Token(8));
    assert!(outs.is_empty());
    assert!(effs.is_empty());
}

#[test]
fn shutdown_closes_every_client_exactly_once() {
    let mut h = fresh();
    h.proc_connect_request(Token(1), addr(), Ok(ConnectStart::Complete));
    h.proc_connect_request(Token(2), addr(), Ok(ConnectStart::Complete));
    let (outs, effs) = h.notify(Input::Shutdown);
    assert_eq!(outs.len(), 2);
    assert!(outs.contains(&Output::Close { token: Token(1) }));
    assert!(outs.contains(&Output::Close { token: Token(2) }));
    assert_eq!(effs.len(), 3);
    assert!(effs.contains(&Effect::Deregister { token: Token(1) }));
    assert!(effs.contains(&Effect::Deregister { token: Token(2) }));
    assert_eq!(effs[2], Effect::Shutdown);
    assert_eq!(h.clients.len(), 0);
}

#[test]
fn shutdown_is_idempotent_in_effect() {
    let mut h = fresh();
    h.proc_connect_request(Token(1), addr(), Ok(ConnectStart::Complete));
    let (outs1, _) = h.proc_shutdown();
    assert_eq!(outs1, vec![Output::Close { token: Token(1) }]);
    let (outs2, effs2) = h.proc_shutdown();
    assert!(outs2.is_empty());
    assert_eq!(effs2, vec![Effect::Shutdown]);
}

#[test]
fn shutdown_leaves_listeners_registered() {
    let mut h = fresh();
    h.proc_listen_request(Token(1), addr(), Ok(()));
    h.proc_connect_request(Token(2), addr(), Ok(ConnectStart::Complete));
    let (outs, _) = h.proc_shutdown();
    assert_eq!(outs, vec![Output::Close { token: Token(2) }]);
    assert_eq!(h.kind_of(Token(1)), TokenKind::Listener);
}

#[test]
fn notify_listen_and_connect_produce_open_effects() {
    let mut h = fresh();
    let (outs, effs) = h.notify(Input::ListenRequest { listener: Token(1), addr: addr() });
    assert!(outs.is_empty());
    assert_eq!(effs, vec![Effect::OpenListener { token: Token(1), addr: addr() }]);
    let (outs, effs) = h.notify(Input::ConnectRequest { token: Token(2), addr: addr() });
    assert!(outs.is_empty());
    assert_eq!(effs, vec![Effect::OpenConnection { token: Token(2), addr: addr() }]);
}

#[test]
fn registries_stay_disjoint() {
    let mut h = fresh();
    h.proc_listen_request(Token(1), addr(), Ok(()));
    h.proc_connect_request(Token(2), addr(), Ok(ConnectStart::InProgress));
    h.proc_connect_request(Token(3), addr(), Ok(ConnectStart::Complete));
    // A busy token never lands in a second registry.
    h.proc_connect_request(Token(1), addr(), Ok(ConnectStart::Complete));
    h.proc_listen_request(Token(3), addr(), Ok(()));
    assert_eq!(h.kind_of(Token(1)), TokenKind::Listener);
    assert_eq!(h.kind_of(Token(2)), TokenKind::Pending);
    assert_eq!(h.kind_of(Token(3)), TokenKind::Client);
    for t in 1usize..=3 {
        let mut homes = 0;
        if h.listeners.contains(Token(t)) {
            homes += 1;
        }
        if h.pending_clients.contains(Token(t)) {
            homes += 1;
        }
        if h.clients.contains(Token(t)) {
            homes += 1;
        }
        assert_eq!(homes, 1);
        // Registration correspondence: exactly one selector registration.
        assert!(h.selector.contains(Token(t)));
    }
    assert!(!h.selector.contains(Token(4)));
}
