use evtcall::chatbuf::{plan_watch, RingBuf, WatchPlan, WriteQueue};
use evtcall::consts::{READ_EVENT, WRITE_EVENT};
use evtcall::mainloop::EvtMain;

#[test]
fn ring_drains_in_order() {
    let mut r = RingBuf::new(4);
    assert_eq!(r.pending_len(), 0);
    assert_eq!(r.drain(), Vec::<u8>::new());
    r.push(1);
    r.push(2);
    r.push(3);
    assert!(!r.is_full());
    assert_eq!(r.drain(), vec![1, 2, 3]);
    // wrap around the end of the ring
    r.push(4);
    r.push(5);
    r.push(6);
    r.push(7);
    assert!(r.is_full());
    assert_eq!(r.pending_len(), 4);
    assert_eq!(r.drain(), vec![4, 5, 6, 7]);
    assert_eq!(r.pending_len(), 0);
}

#[test]
fn ring_of_one_byte() {
    let mut r = RingBuf::new(1);
    r.push(9);
    assert!(r.is_full());
    assert_eq!(r.drain(), vec![9]);
    r.push(8);
    assert_eq!(r.drain(), vec![8]);
}

#[test]
fn write_queue_is_first_in_first_out() {
    let mut q = WriteQueue::new();
    assert!(q.is_empty());
    assert!(q.current().is_empty());
    q.enqueue(vec![1, 2]);
    q.enqueue(vec![3]);
    q.enqueue(vec![4, 5, 6]);
    assert_eq!(q.current(), &vec![1, 2]);
    q.advance();
    assert_eq!(q.current(), &vec![3]);
    q.advance();
    assert_eq!(q.current(), &vec![4, 5, 6]);
    q.advance();
    assert!(q.is_empty());
    q.advance();
    assert!(q.is_empty());
}

#[test]
fn watch_plan_cases() {
    // nothing registered yet, read pending
    assert_eq!(plan_watch(true, false, false, 0), WatchPlan { reinsert: true, remove: false, evttype: READ_EVENT });
    // already registered for exactly what is pending
    assert_eq!(plan_watch(true, false, true, READ_EVENT), WatchPlan { reinsert: false, remove: false, evttype: READ_EVENT });
    // a write started: register for both
    assert_eq!(
        plan_watch(true, true, true, READ_EVENT),
        WatchPlan { reinsert: true, remove: false, evttype: READ_EVENT | WRITE_EVENT }
    );
    // the read finished: only write left
    assert_eq!(
        plan_watch(false, true, true, READ_EVENT | WRITE_EVENT),
        WatchPlan { reinsert: true, remove: false, evttype: WRITE_EVENT }
    );
    // nothing pending: drop the registration
    assert_eq!(plan_watch(false, false, true, WRITE_EVENT), WatchPlan { reinsert: false, remove: true, evttype: 0 });
}

#[test]
fn windows_style_timeout_and_handles() {
    let mut m = EvtMain::new(0);
    assert_eq!(m.get_timeout(30000, 0), 30000);
    m.add_timer(0, 500, false);
    m.add_timer(0, 250, false);
    assert_eq!(m.get_timeout(30000, 100), 150);
    assert_eq!(m.get_timeout(100, 100), 100);
    assert_eq!(m.get_timeout(30000, 300), 1);
    let a = m.add_event(11, READ_EVENT).unwrap();
    let b = m.add_event(12, WRITE_EVENT).unwrap();
    let (hs, gs) = m.get_handles();
    let mut pairs: Vec<(u64, u64)> = hs.into_iter().zip(gs.into_iter()).collect();
    pairs.sort();
    assert_eq!(pairs, vec![(11, a), (12, b)]);
}
