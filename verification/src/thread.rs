use vstd::prelude::*;

verus! {

/// Errors of a worker thread.
#[derive(Clone, Copy, Debug, PartialEq, Eq, Structural)]
pub enum EvtThreadError {
    /// The operating system could not create an event handle; negated errno.
    CannotCreateEvent(i32),
}

/// The values a worker thread handed back, taken last-in first-out.
pub struct EvtBody<T> {
    b: Vec<T>,
}

impl<T> EvtBody<T> {
    /// The values waiting to be taken, oldest first.
    pub closed spec fn values(&self) -> Seq<T> {
        self.b@
    }

    /// Nothing handed back yet.
    pub fn new() -> (r: Self)
        ensures
            r.values() == Seq::<T>::empty(),
    {
        EvtBody { b: Vec::new() }
    }

    /// Takes the most recently handed back value, if any.
    pub fn get(&mut self) -> (r: Option<T>)
        ensures
            old(self).values().len() == 0 ==> r is None && final(self).values() == old(self).values(),
            old(self).values().len() > 0 ==> r == Some(old(self).values().last())
                && final(self).values() == old(self).values().drop_last(),
    {
        self.b.pop()
    }

    /// Hands back a value.
    pub fn push(&mut self, nb: T)
        ensures
            final(self).values() == old(self).values().push(nb),
    {
        self.b.push(nb);
    }
}

/// A value handed back and then taken is the value taken, and taking it
/// leaves the values that were there before.
pub proof fn law_body_push_get<T>(values: Seq<T>, x: T)
    ensures
        values.push(x).len() > 0,
        values.push(x).last() == x,
        values.push(x).drop_last() == values,
{
    assert(values.push(x).drop_last() =~= values);
}

/// A thread body waiting to be started, with the descriptors it will use to
/// report its exit (both `-1` until the thread starts).
pub struct ThreadEvt<F: FnOnce() + Send + Sync + 'static> {
    pub exitfd: i32,
    pub setexit: i32,
    pub callfn: F,
}

impl<F: FnOnce() + Send + Sync + 'static> ThreadEvt<F> {
    /// Wraps `callfn`; no descriptor is opened yet.
    pub fn new(_bstart: bool, callfn: F) -> (r: Result<Self, EvtThreadError>)
        ensures
            r matches Ok(t) && t.exitfd == -1 && t.setexit == -1 && t.callfn == callfn,
    {
        Ok(ThreadEvt { exitfd: -1, setexit: -1, callfn })
    }
}

/// What to do after waiting for a worker thread to report its exit.
#[derive(Clone, Copy, Debug, PartialEq, Eq, Structural)]
pub enum JoinStep {
    /// The thread reported its exit: join it.
    Joined,
    /// It did not, and the caller asked for a bounded wait: give up.
    GiveUp,
    /// It did not, and the caller asked to wait for good: ask again.
    Retry,
}

/// How long one wait for the worker's exit lasts: `mills`, or one second when
/// `mills` is negative (wait for good, one second at a time).
pub fn join_wait_mills(mills: i32) -> (r: i32)
    ensures
        mills >= 0 ==> r == mills,
        mills < 0 ==> r == 1000,
{
    if mills < 0 {
        1000
    } else {
        mills
    }
}

/// The decision after one wait for the worker's exit.
pub fn join_step(mills: i32, signalled: bool) -> (r: JoinStep)
    ensures
        signalled ==> r == JoinStep::Joined,
        !signalled && mills >= 0 ==> r == JoinStep::GiveUp,
        !signalled && mills < 0 ==> r == JoinStep::Retry,
{
    if signalled {
        JoinStep::Joined
    } else if mills >= 0 {
        JoinStep::GiveUp
    } else {
        JoinStep::Retry
    }
}

} // verus!
