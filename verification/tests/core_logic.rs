use evtcall::consts::{ERROR_EVENT, EVENT_NO_AUTO_RESET, ET_TRIGGER, INVALID_EVENT_HANDLE, READ_EVENT, WRITE_EVENT};
use evtcall::defer::DeferCall;
use evtcall::eventfd::{normalize_errno, EventFdError, EventFdInner};
use evtcall::mainloop::{interest_of, ready_type, EvtMain, MainLoopError, ReadyEvent};
use evtcall::sockhdl::{
    check_connect_target, fini_socket, format_endpoint, init_socket, os_result, pack_ipv4, unpack_ipv4,
    AcceptOutcome, ConnectOutcome, ConnectProbe, IoOutcome, SockHandleError, SockOp, TcpSockHandleInner,
    TcpSockType, DEFAULT_SOCKET,
};
use evtcall::thread::{join_step, join_wait_mills, EvtBody, JoinStep, ThreadEvt};
use evtcall::timeop::{select_timeval, ticks_from_timespec, time_left, MAX_U64_VAL};
use std::cell::RefCell;
use std::rc::Rc;

#[test]
fn time_left_inside_span() {
    assert_eq!(time_left(1000, 1000, 200), 200);
    assert_eq!(time_left(1000, 1150, 200), 50);
    assert_eq!(time_left(1000, 1199, 200), 1);
}

#[test]
fn time_left_expired_or_before() {
    assert_eq!(time_left(1000, 1200, 200), -1);
    assert_eq!(time_left(1000, 5000, 200), -1);
    assert_eq!(time_left(1000, 999, 200), -1);
    assert_eq!(time_left(1000, 1000, 0), -1);
}

#[test]
fn time_left_across_wrap() {
    let sticks = MAX_U64_VAL - 10;
    // still before the wrap
    assert_eq!(time_left(sticks, sticks + 5, 100), 95);
    // after the counter wrapped
    assert_eq!(time_left(sticks, 3, 100), 100 - 10 - 3);
    // after the wrapped end
    assert_eq!(time_left(sticks, 200, 100), -1);
}

#[test]
fn ticks_from_clock_reading() {
    assert_eq!(ticks_from_timespec(12, 345_678_901), 12_345);
    assert_eq!(ticks_from_timespec(0, 999_999_999), 999);
}

#[test]
fn select_timeval_values() {
    assert_eq!(select_timeval(-5), (0, 0));
    assert_eq!(select_timeval(0), (0, 0));
    assert_eq!(select_timeval(2500), (2, 500_000));
    assert_eq!(select_timeval(10), (0, 10_000));
}

#[test]
fn errno_normalization() {
    assert_eq!(normalize_errno(11), -11);
    assert_eq!(normalize_errno(0), -1);
    assert_eq!(normalize_errno(-4), -4);
}

#[test]
fn defer_runs_last_first() {
    let log: Rc<RefCell<Vec<u32>>> = Rc::new(RefCell::new(Vec::new()));
    let mut d: DeferCall<Box<dyn FnOnce()>> = DeferCall::new();
    let l1 = log.clone();
    let l2 = log.clone();
    let l3 = log.clone();
    assert_eq!(d.push_call(Box::new(move || l1.borrow_mut().push(1))), 1);
    assert_eq!(d.push_call(Box::new(move || l2.borrow_mut().push(2))), 2);
    assert_eq!(d.push_call(Box::new(move || l3.borrow_mut().push(3))), 3);
    d.close();
    assert_eq!(*log.borrow(), vec![3, 2, 1]);
    d.close();
    assert_eq!(*log.borrow(), vec![3, 2, 1]);
}

#[test]
fn mainloop_timers_get_fresh_guids() {
    let mut m = EvtMain::new(0);
    assert_eq!(m.get_guid(), 1);
    let g1 = m.add_timer(100, 50, false);
    let g2 = m.add_timer(100, 70, true);
    assert_eq!(g1, 2);
    assert_eq!(g2, 3);
    assert_eq!(m.remove_timer(g1), 1);
    assert_eq!(m.remove_timer(g1), 0);
    assert!(m.timer_entry(g1).is_none());
    let t = m.timer_entry(g2).unwrap();
    assert_eq!((t.startticks, t.interval, t.conti), (100, 70, true));
}

#[test]
fn mainloop_events_register_and_remove() {
    let mut m = EvtMain::new(0);
    let g = m.add_event(7, READ_EVENT | WRITE_EVENT).unwrap();
    assert_eq!(g, 2);
    assert_eq!(m.find_event(7), Some((2, READ_EVENT | WRITE_EVENT)));
    assert_eq!(m.add_event(7, READ_EVENT), Err(MainLoopError::HandleInUse));
    assert_eq!(m.get_guid(), 2);
    let e = m.event_entry(2).unwrap();
    assert_eq!((e.evthd, e.evttype), (7, READ_EVENT | WRITE_EVENT));
    assert_eq!(m.remove_event(7), 1);
    assert_eq!(m.remove_event(7), 0);
    assert_eq!(m.find_event(7), None);
    assert!(m.event_entry(2).is_none());
}

#[test]
fn mainloop_add_remove_law_concrete() {
    let mut m = EvtMain::new(0);
    let a = m.add_event(3, READ_EVENT).unwrap();
    let t = m.add_timer(0, 10, false);
    let g = m.add_event(9, WRITE_EVENT).unwrap();
    assert_eq!(m.remove_event(9), 1);
    assert!(m.event_entry(g).is_none());
    assert_eq!(m.find_event(3), Some((a, READ_EVENT)));
    assert!(m.timer_entry(t).is_some());
    let mut ev = m.get_event_guids();
    ev.sort();
    assert_eq!(ev, vec![a]);
}

#[test]
fn mainloop_wait_time() {
    let mut m = EvtMain::new(0);
    assert_eq!(m.get_time(30000, 500), 30000);
    m.add_timer(500, 200, false);
    m.add_timer(500, 80, true);
    assert_eq!(m.get_time(30000, 500), 80);
    assert_eq!(m.get_time(50, 500), 50);
    assert_eq!(m.get_time(30000, 560), 20);
    // one timer due: wait as little as possible
    assert_eq!(m.get_time(30000, 600), 1);
}

#[test]
fn mainloop_expired_timers() {
    let mut m = EvtMain::new(0);
    let a = m.add_timer(0, 100, false);
    let b = m.add_timer(0, 300, true);
    let c = m.add_timer(50, 100, false);
    assert!(m.get_timer_guids(60).is_empty());
    // a clock reading before a timer started counts as expired
    assert_eq!(m.get_timer_guids(10), vec![c]);
    let mut due = m.get_timer_guids(120);
    due.sort();
    assert_eq!(due, vec![a]);
    let mut due = m.get_timer_guids(400);
    due.sort();
    assert_eq!(due, vec![a, b, c]);
    let mut all = m.get_all_timer_guids();
    all.sort();
    assert_eq!(all, vec![a, b, c]);
}

#[test]
fn mainloop_after_timer() {
    let mut m = EvtMain::new(0);
    let once = m.add_timer(0, 100, false);
    let rep = m.add_timer(0, 100, true);
    m.after_timer(once, false, 150);
    assert!(m.timer_entry(once).is_none());
    m.after_timer(rep, true, 150);
    let t = m.timer_entry(rep).unwrap();
    assert_eq!((t.startticks, t.interval, t.conti), (150, 100, true));
    m.after_timer(once, true, 170);
    assert!(m.timer_entry(once).is_none());
}

#[test]
fn mainloop_ready_reports() {
    let mut m = EvtMain::new(0);
    let g5 = m.add_event(5, READ_EVENT).unwrap();
    let g6 = m.add_event(6, WRITE_EVENT | ET_TRIGGER).unwrap();
    let evts = vec![
        ReadyEvent { id: 6, readable: false, writable: true, errored: true },
        ReadyEvent { id: 0, readable: true, writable: false, errored: false },
        ReadyEvent { id: 77, readable: true, writable: false, errored: false },
        ReadyEvent { id: 5, readable: true, writable: false, errored: false },
    ];
    let (guids, types) = m.get_evts_guids(&evts);
    assert_eq!(guids, vec![g6, g5]);
    assert_eq!(types, vec![WRITE_EVENT | ERROR_EVENT, READ_EVENT]);
}

#[test]
fn mainloop_ready_report_for_handle_zero() {
    let mut m = EvtMain::new(0);
    let g0 = m.add_event(0, READ_EVENT).unwrap();
    let evts = vec![ReadyEvent { id: 0, readable: true, writable: false, errored: false }];
    let (guids, types) = m.get_evts_guids(&evts);
    assert_eq!(guids, vec![g0]);
    assert_eq!(types, vec![READ_EVENT]);
}

#[test]
fn mainloop_remove_twice() {
    let mut m = EvtMain::new(0);
    m.add_event(21, READ_EVENT).unwrap();
    assert_eq!(m.remove_event(21), 1);
    assert_eq!(m.remove_event(21), 0);
    let t = m.add_timer(0, 5, false);
    assert_eq!(m.remove_timer(t), 1);
    assert_eq!(m.remove_timer(t), 0);
    assert!(m.get_event_guids().is_empty());
    assert!(m.get_all_timer_guids().is_empty());
}

#[test]
fn defer_take_last_is_newest() {
    let log: Rc<RefCell<Vec<u32>>> = Rc::new(RefCell::new(Vec::new()));
    let mut d: DeferCall<Box<dyn FnOnce()>> = DeferCall::new();
    assert!(d.take_last().is_none());
    let l1 = log.clone();
    let l2 = log.clone();
    d.push_call(Box::new(move || l1.borrow_mut().push(1)));
    d.push_call(Box::new(move || l2.borrow_mut().push(2)));
    let f = d.take_last().unwrap();
    f();
    assert_eq!(*log.borrow(), vec![2]);
    d.close();
    assert_eq!(*log.borrow(), vec![2, 1]);
    assert!(d.take_last().is_none());
}

#[test]
fn socket_begin_connect_records_peer() {
    let mut s = TcpSockHandleInner::new(TcpSockType::SockClientType);
    assert_eq!(s.begin_connect("", 80), Err(SockHandleError::InvalidTarget));
    assert_eq!(s.get_peer_format(), ":0");
    assert_eq!(s.begin_connect("127.0.0.1", 70000), Err(SockHandleError::InvalidTarget));
    assert_eq!(s.begin_connect("127.0.0.1", 4012), Ok(()));
    assert_eq!(s.get_peer_format(), "127.0.0.1:4012");
}

#[test]
fn defer_close_then_push() {
    let mut d: DeferCall<Box<dyn FnOnce()>> = DeferCall::new();
    d.push_call(Box::new(|| ()));
    d.close();
    d.close();
    assert_eq!(d.push_call(Box::new(|| ())), 1);
}

#[test]
fn mainloop_interest_and_ready_type() {
    let i = interest_of(READ_EVENT | ET_TRIGGER);
    assert!(i.read && !i.write && !i.error && i.edge);
    let i = interest_of(WRITE_EVENT | ERROR_EVENT);
    assert!(!i.read && i.write && i.error && !i.edge);
    let r = ReadyEvent { id: 1, readable: i.read, writable: i.write, errored: i.error };
    assert_eq!(ready_type(&r), WRITE_EVENT | ERROR_EVENT);
}

#[test]
fn mainloop_break_and_close() {
    let mut m = EvtMain::new(0);
    m.add_event(4, READ_EVENT).unwrap();
    m.add_timer(0, 10, true);
    assert!(!m.is_exited());
    assert!(m.break_up().is_ok());
    assert!(m.is_exited());
    m.close();
    assert!(!m.is_exited());
    assert_eq!(m.get_guid(), 1);
    assert!(m.get_event_guids().is_empty());
    assert!(m.get_all_timer_guids().is_empty());
    assert_eq!(m.find_event(4), None);
}

#[test]
fn eventfd_state() {
    assert_eq!(EventFdInner::new(-1, 24, 0, "x").err(), Some(EventFdError::CannotInit(-24)));
    let mut e = EventFdInner::new(9, 0, 0, "child event").unwrap();
    assert_eq!(e.get_event(), 9);
    assert_eq!(e.get_name(), "child event");
    assert!(e.check_valid().is_ok());
    assert!(e.needs_auto_reset(true));
    assert!(!e.needs_auto_reset(false));
    assert_eq!(e.close(), Some(9));
    assert_eq!(e.close(), None);
    assert_eq!(e.get_event(), INVALID_EVENT_HANDLE);
    assert_eq!(e.check_valid(), Err(EventFdError::NotValid));
    let keep = EventFdInner::new(3, 0, EVENT_NO_AUTO_RESET, "k").unwrap();
    assert!(!keep.needs_auto_reset(true));
}

#[test]
fn socket_setup_functions() {
    assert!(init_socket().is_ok());
    fini_socket();
    assert_eq!(os_result(-1, 13, SockOp::Bind), Err(SockHandleError::Os(SockOp::Bind, -13)));
    assert_eq!(os_result(0, 13, SockOp::Bind), Ok(()));
    assert_eq!(check_connect_target("127.0.0.1", 80), Ok(()));
    assert_eq!(check_connect_target("", 80), Err(SockHandleError::InvalidTarget));
    assert_eq!(check_connect_target("127.0.0.1", 0), Err(SockHandleError::InvalidTarget));
    assert_eq!(check_connect_target("127.0.0.1", 65536), Err(SockHandleError::InvalidTarget));
    assert_eq!(check_connect_target("127.0.0.1", 65535), Ok(()));
}

#[test]
fn ipv4_packing() {
    let w = pack_ipv4([127, 0, 0, 1]);
    assert_eq!(w, 0x0100007f);
    assert_eq!(unpack_ipv4(w), [127, 0, 0, 1]);
    assert_eq!(unpack_ipv4(0xc0a80a01), [1, 10, 168, 192]);
    assert_eq!(pack_ipv4(unpack_ipv4(0xdeadbeef)), 0xdeadbeef);
}

#[test]
fn endpoint_format() {
    assert_eq!(format_endpoint("10.0.0.2", 8080), "10.0.0.2:8080");
    assert_eq!(format_endpoint("", 0), ":0");
    assert_eq!(format_endpoint("h", 4294967295), "h:4294967295");
}

#[test]
fn socket_accept_flow() {
    let mut s = TcpSockHandleInner::new(TcpSockType::SockServerType);
    assert_eq!(s.sock_fd(), DEFAULT_SOCKET);
    assert!(s.opened(5, 0).is_ok());
    s.set_local("0.0.0.0", 3000);
    assert!(s.begin_accept().is_ok());
    assert!(s.accept_result(AcceptOutcome::Failed { errno: 11, would_block: true }).is_ok());
    assert!(s.is_accept_mode());
    assert_eq!(s.get_accept_handle(), 5);
    assert_eq!(s.accept_completed(), 0);
    assert_eq!(s.begin_accept(), Err(SockHandleError::AlreadyInAccept));
    assert!(s.needs_accept());
    assert_eq!(s.take_accepted().err(), Some(SockHandleError::NotAccepted));

    let mut t = TcpSockHandleInner::new(TcpSockType::SockServerType);
    t.opened(6, 0).unwrap();
    t.set_local("1.2.3.4", 99);
    t.begin_accept().unwrap();
    t.accept_result(AcceptOutcome::Accepted(8)).unwrap();
    assert!(t.has_accepted());
    assert!(!t.needs_accept());
    assert_eq!(t.accept_completed(), 1);
    let mut c = t.take_accepted().unwrap();
    assert!(!t.has_accepted());
    assert_eq!(c.sock_fd(), 8);
    assert_eq!(c.get_self_format(), "1.2.3.4:99");
    c.set_peer("5.6.7.8", 1234);
    assert_eq!(c.get_peer_format(), "5.6.7.8:1234");
    assert_eq!(c.take_accepted().err(), Some(SockHandleError::NotAcceptType));
    assert_eq!(c.check_accept_type(), Err(SockHandleError::NotAcceptType));

    let mut u = TcpSockHandleInner::new(TcpSockType::SockServerType);
    u.opened(7, 0).unwrap();
    assert_eq!(
        u.accept_result(AcceptOutcome::Failed { errno: 24, would_block: false }),
        Err(SockHandleError::Os(SockOp::Accept, -24))
    );
    assert!(!u.is_accept_mode());
}

#[test]
fn socket_connect_flow() {
    let mut s = TcpSockHandleInner::new(TcpSockType::SockClientType);
    assert_eq!(s.opened(-1, 24), Err(SockHandleError::Os(SockOp::Socket, -24)));
    s.opened(10, 0).unwrap();
    assert_eq!(
        s.connect_result(ConnectOutcome::Failed { errno: 111, in_progress: false }),
        Err(SockHandleError::Os(SockOp::Connect, -111))
    );
    s.connect_result(ConnectOutcome::Failed { errno: 115, in_progress: true }).unwrap();
    assert!(s.is_connect_mode());
    assert!(s.needs_connect_probe());
    assert_eq!(s.complete_connect(None), Ok(0));
    assert_eq!(s.complete_connect(Some(ConnectProbe::Failed { errno: 115, in_progress: true })), Ok(0));
    assert_eq!(
        s.complete_connect(Some(ConnectProbe::Failed { errno: 9, in_progress: false })),
        Err(SockHandleError::Os(SockOp::GetErrorOpt, -9))
    );
    assert_eq!(s.complete_connect(Some(ConnectProbe::Status(111))), Err(SockHandleError::ConnectRefused(111)));
    assert_eq!(s.begin_read(4), Err(SockHandleError::InvalidReadState));
    assert_eq!(s.complete_connect(Some(ConnectProbe::Status(0))), Ok(1));
    assert!(!s.is_connect_mode());
    assert_eq!(s.complete_connect(None), Ok(1));
}

#[test]
fn socket_read_write_progress() {
    let mut s = TcpSockHandleInner::new(TcpSockType::SockClientType);
    assert_eq!(s.begin_read(4), Err(SockHandleError::InvalidReadState));
    s.opened(3, 0).unwrap();
    s.connect_result(ConnectOutcome::Connected).unwrap();
    s.begin_read(10).unwrap();
    assert!(s.is_read_mode());
    assert_eq!(s.get_read_handle(), 3);
    assert_eq!(s.begin_read(1), Err(SockHandleError::InvalidReadState));
    assert_eq!(s.read_progress(IoOutcome::Done(4)), Ok(true));
    assert_eq!(s.pending_read_len(), 6);
    assert_eq!(s.read_progress(IoOutcome::Failed { errno: 11, would_block: true }), Ok(false));
    assert_eq!(s.read_completed(), 0);
    assert_eq!(
        s.read_progress(IoOutcome::Failed { errno: 104, would_block: false }),
        Err(SockHandleError::Os(SockOp::Read, -104))
    );
    assert!(!s.is_close_error());
    assert_eq!(s.read_progress(IoOutcome::Done(6)), Ok(false));
    assert_eq!(s.read_completed(), 1);
    assert_eq!(s.get_read_handle(), INVALID_EVENT_HANDLE);

    s.begin_write(3).unwrap();
    assert_eq!(s.get_write_handle(), 3);
    assert_eq!(s.begin_write(3), Err(SockHandleError::InvalidWriteState));
    assert_eq!(s.write_progress(IoOutcome::Done(1)), Ok(true));
    assert_eq!(s.pending_write_len(), 2);
    assert_eq!(s.write_completed(), 0);
    assert_eq!(
        s.write_progress(IoOutcome::Failed { errno: 32, would_block: false }),
        Err(SockHandleError::Os(SockOp::Write, -32))
    );
    assert_eq!(s.write_progress(IoOutcome::Done(2)), Ok(false));
    assert!(!s.is_write_mode());
    assert_eq!(s.write_completed(), 1);
}

#[test]
fn socket_read_from_closed_peer() {
    let mut s = TcpSockHandleInner::new(TcpSockType::SockServerConnType);
    s.opened(3, 0).unwrap();
    s.begin_read(5).unwrap();
    assert_eq!(s.read_progress(IoOutcome::Done(2)), Ok(true));
    // the peer closed: no bytes while three are still owed
    assert_eq!(s.read_progress(IoOutcome::Done(0)), Err(SockHandleError::Closed));
    assert!(s.is_close_error());
    assert_eq!(s.pending_read_len(), 3);
    // a read of zero bytes finishes at once
    let mut t = TcpSockHandleInner::new(TcpSockType::SockClientType);
    t.opened(4, 0).unwrap();
    t.begin_read(0).unwrap();
    assert_eq!(t.read_progress(IoOutcome::Done(0)), Ok(false));
    assert!(!t.is_read_mode());
    assert!(!t.is_close_error());
    s.close();
    assert!(!s.is_close_error());
}

#[test]
fn socket_close_resets() {
    let mut s = TcpSockHandleInner::new(TcpSockType::SockServerType);
    s.opened(4, 0).unwrap();
    s.begin_accept().unwrap();
    s.accept_result(AcceptOutcome::Accepted(12)).unwrap();
    s.set_local("9.9.9.9", 1);
    assert_eq!(s.close(), (Some(4), Some(12)));
    assert_eq!(s.close(), (None, None));
    assert_eq!(s.sock_fd(), DEFAULT_SOCKET);
    assert_eq!(s.accepted_fd(), DEFAULT_SOCKET);
    assert_eq!(s.get_self_format(), ":0");
    assert_eq!(s.get_sock_real(), DEFAULT_SOCKET as i64 as u64);
    assert_eq!(s.check_accept_type(), Err(SockHandleError::NotAcceptType));
}

#[test]
fn thread_body_is_last_in_first_out() {
    let mut b: EvtBody<u32> = EvtBody::new();
    assert_eq!(b.get(), None);
    b.push(1);
    b.push(2);
    assert_eq!(b.get(), Some(2));
    assert_eq!(b.get(), Some(1));
    assert_eq!(b.get(), None);
}

#[test]
fn thread_join_decisions() {
    assert_eq!(join_wait_mills(-1), 1000);
    assert_eq!(join_wait_mills(25), 25);
    assert_eq!(join_step(-1, true), JoinStep::Joined);
    assert_eq!(join_step(10, false), JoinStep::GiveUp);
    assert_eq!(join_step(0, false), JoinStep::GiveUp);
    assert_eq!(join_step(-1, false), JoinStep::Retry);
}

#[test]
fn thread_evt_new() {
    let t = ThreadEvt::new(false, || ()).ok().unwrap();
    assert_eq!(t.exitfd, -1);
    assert_eq!(t.setexit, -1);
    (t.callfn)();
}
