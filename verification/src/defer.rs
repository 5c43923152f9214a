use vstd::prelude::*;

verus! {

/// A stack of deferred calls, run last-in first-out by `close`.
///
/// Dropping the stack runs nothing: only `close` runs the pending calls, so
/// an owner that wants them run on drop calls `close` from its own drop.
pub struct DeferCall<F: FnOnce()> {
    fnvecs: Vec<F>,
}

impl<F: FnOnce()> DeferCall<F> {
    /// The calls still waiting to run, oldest first.
    pub closed spec fn pending(&self) -> Seq<F> {
        self.fnvecs@
    }

    #[verifier::type_invariant]
    closed spec fn all_callable(&self) -> bool {
        forall|i: int| 0 <= i < self.fnvecs@.len() ==> call_requires(#[trigger] self.fnvecs@[i], ())
    }

    /// An empty stack.
    pub fn new() -> (r: Self)
        ensures
            r.pending() == Seq::<F>::empty(),
    {
        DeferCall { fnvecs: Vec::new() }
    }

    /// Pushes a call and returns how many calls are now pending.
    pub fn push_call(&mut self, f: F) -> (r: usize)
        requires
            call_requires(f, ()),
        ensures
            final(self).pending() == old(self).pending().push(f),
            r == final(self).pending().len(),
    {
        proof { use_type_invariant(&*self); }
        let mut v = Vec::new();
        std::mem::swap(&mut v, &mut self.fnvecs);
        v.push(f);
        let n = v.len();
        self.fnvecs = v;
        n
    }

    /// Takes the most recently pushed call off the stack, if any; the call
    /// taken can be made.
    pub fn take_last(&mut self) -> (r: Option<F>)
        ensures
            old(self).pending().len() == 0 ==> r is None && final(self).pending() == old(self).pending(),
            old(self).pending().len() > 0 ==> {
                &&& r == Some(old(self).pending().last())
                &&& final(self).pending() == old(self).pending().drop_last()
                &&& call_requires(old(self).pending().last(), ())
            },
    {
        proof { use_type_invariant(&*self); }
        let mut v = Vec::new();
        std::mem::swap(&mut v, &mut self.fnvecs);
        let r = v.pop();
        self.fnvecs = v;
        r
    }

    /// Runs every pending call, taking them with `take_last` (so the most
    /// recently pushed runs first), and leaves the stack empty.
    pub fn close(&mut self)
        ensures
            final(self).pending().len() == 0,
            forall|i: int| 0 <= i < old(self).pending().len() ==> call_ensures(#[trigger] old(self).pending()[i], (), ()),
    {
        let ghost all = self.pending();
        loop
            invariant
                self.pending().len() <= all.len(),
                self.pending() == all.take(self.pending().len() as int),
                forall|i: int| self.pending().len() <= i < all.len() ==> call_ensures(#[trigger] all[i], (), ()),
            ensures
                self.pending().len() == 0,
                forall|i: int| 0 <= i < all.len() ==> call_ensures(#[trigger] all[i], (), ()),
            decreases self.pending().len(),
        {
            let ghost before = self.pending();
            match self.take_last() {
                Some(cf) => {
                    assert(cf == all[before.len() - 1]);
                    cf();
                    assert(self.pending() =~= all.take(self.pending().len() as int));
                },
                None => {
                    break;
                },
            }
        }
    }
}

/// A closed stack is empty: closing it again runs no call, and the next push
/// reports one pending call.
pub proof fn law_close_then_push<F: FnOnce()>(d: DeferCall<F>, f: F)
    requires
        d.pending().len() == 0,
    ensures
        d.pending() == Seq::<F>::empty(),
        d.pending().push(f).len() == 1,
{
    assert(d.pending() =~= Seq::<F>::empty());
}

} // verus!
