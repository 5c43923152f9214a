use vstd::prelude::*;
use crate::consts::{READ_EVENT, WRITE_EVENT};

verus! {

/// A byte ring of fixed capacity: bytes go in at the end index and are
/// drained, oldest first, from the start index.
pub struct RingBuf {
    buf: Vec<u8>,
    sidx: usize,
    eidx: usize,
    len: usize,
}

impl RingBuf {
    /// The bytes waiting to be drained, oldest first.
    pub closed spec fn pending(&self) -> Seq<u8> {
        Seq::new(self.len as nat, |i: int| self.buf@[(self.sidx + i) % (self.buf@.len() as int)])
    }

    /// How many bytes the ring holds.
    pub closed spec fn capacity(&self) -> nat {
        self.buf@.len()
    }

    /// The indices stay inside the ring and the end index follows the pending bytes.
    pub closed spec fn wf(&self) -> bool {
        &&& self.buf@.len() > 0
        &&& self.buf@.len() <= isize::MAX
        &&& self.sidx < self.buf@.len()
        &&& self.len <= self.buf@.len()
        &&& self.eidx == (self.sidx + self.len) % (self.buf@.len() as int)
    }

    /// An empty ring of `cap` bytes.
    pub fn new(cap: usize) -> (r: Self)
        requires
            cap > 0,
            cap <= isize::MAX,
        ensures
            r.wf(),
            r.capacity() == cap,
            r.pending() == Seq::<u8>::empty(),
    {
        let mut buf: Vec<u8> = Vec::new();
        let mut i: usize = 0;
        while i < cap
            invariant
                i <= cap,
                buf@.len() == i,
            decreases cap - i,
        {
            buf.push(0);
            i += 1;
        }
        let r = RingBuf { buf, sidx: 0, eidx: 0, len: 0 };
        proof {
            vstd::arithmetic::div_mod::lemma_small_mod(0, cap as nat);
        }
        assert(r.pending() =~= Seq::<u8>::empty());
        r
    }

    /// Whether no byte fits any more.
    pub fn is_full(&self) -> (r: bool)
        requires
            self.wf(),
        ensures
            r == (self.pending().len() == self.capacity()),
    {
        self.len == self.buf.len()
    }

    /// How many bytes are pending.
    pub fn pending_len(&self) -> (r: usize)
        ensures
            r == self.pending().len(),
    {
        self.len
    }

    /// Appends a byte.
    pub fn push(&mut self, b: u8)
        requires
            old(self).wf(),
            old(self).pending().len() < old(self).capacity(),
        ensures
            final(self).wf(),
            final(self).capacity() == old(self).capacity(),
            final(self).pending() == old(self).pending().push(b),
    {
        let cap = self.buf.len();
        let e = self.eidx;
        self.buf.set(e, b);
        self.eidx = (e + 1) % cap;
        self.len = self.len + 1;
        proof {
            let c = cap as int;
            let s = self.sidx as int;
            let l = old(self).len as int;
            assert((s + l) % c == e as int);
            assert(((e as int) + 1) % c == (s + l + 1) % c) by {
                vstd::arithmetic::div_mod::lemma_add_mod_noop(s + l, 1, c);
                vstd::arithmetic::div_mod::lemma_mod_bound(s + l, c);
                vstd::arithmetic::div_mod::lemma_small_mod(e as nat, c as nat);
                vstd::arithmetic::div_mod::lemma_add_mod_noop(e as int, 1, c);
            }
            assert forall|i: int| 0 <= i < l implies #[trigger] ((s + i) % c) != e as int by {
                vstd::arithmetic::div_mod::lemma_mod_bound(s + i, c);
                if s + i < c && s + l < c {
                    vstd::arithmetic::div_mod::lemma_small_mod((s + i) as nat, c as nat);
                    vstd::arithmetic::div_mod::lemma_small_mod((s + l) as nat, c as nat);
                } else if s + i >= c {
                    vstd::arithmetic::div_mod::lemma_mod_sub_multiples_vanish(s + i, c);
                    vstd::arithmetic::div_mod::lemma_small_mod((s + i - c) as nat, c as nat);
                    vstd::arithmetic::div_mod::lemma_mod_sub_multiples_vanish(s + l, c);
                    vstd::arithmetic::div_mod::lemma_small_mod((s + l - c) as nat, c as nat);
                } else {
                    vstd::arithmetic::div_mod::lemma_small_mod((s + i) as nat, c as nat);
                    vstd::arithmetic::div_mod::lemma_mod_sub_multiples_vanish(s + l, c);
                    vstd::arithmetic::div_mod::lemma_small_mod((s + l - c) as nat, c as nat);
                }
            }
            assert(self.pending() =~= old(self).pending().push(b));
        }
    }

    /// Takes every pending byte, oldest first, and leaves the ring empty.
    pub fn drain(&mut self) -> (r: Vec<u8>)
        requires
            old(self).wf(),
        ensures
            final(self).wf(),
            final(self).capacity() == old(self).capacity(),
            r@ == old(self).pending(),
            final(self).pending() == Seq::<u8>::empty(),
    {
        let mut wbuf: Vec<u8> = Vec::new();
        let mut idx: usize = 0;
        let cap = self.buf.len();
        while idx < self.len
            invariant
                self.wf(),
                self == old(self),
                cap == self.buf@.len(),
                idx <= self.len,
                wbuf@ == self.pending().take(idx as int),
            decreases self.len - idx,
        {
            let cidx = (self.sidx + idx) % cap;
            wbuf.push(self.buf[cidx]);
            idx += 1;
            proof {
                assert(wbuf@ =~= self.pending().take(idx as int));
            }
        }
        proof {
            assert(wbuf@ =~= old(self).pending());
        }
        proof {
            vstd::arithmetic::div_mod::lemma_mod_bound((self.sidx + self.len) as int, cap as int);
            vstd::arithmetic::div_mod::lemma_small_mod(self.eidx as nat, cap as nat);
        }
        self.len = 0;
        self.sidx = self.eidx;
        proof {
            assert(self.pending() =~= Seq::<u8>::empty());
        }
        wbuf
    }
}

/// Buffers waiting to be sent, in order: the one being sent, then the queue.
pub struct WriteQueue {
    wbuf: Vec<u8>,
    wbufs: Vec<Vec<u8>>,
}

impl WriteQueue {
    /// The buffers still to be sent, the one being sent first.
    pub closed spec fn pending(&self) -> Seq<Seq<u8>> {
        if self.wbuf@.len() == 0 {
            Seq::empty()
        } else {
            seq![self.wbuf@] + self.wbufs@.map_values(|v: Vec<u8>| v@)
        }
    }

    /// Nothing waits behind an empty current buffer, and no queued buffer is empty.
    pub closed spec fn wf(&self) -> bool {
        &&& self.wbuf@.len() == 0 ==> self.wbufs@.len() == 0
        &&& forall|i: int| 0 <= i < self.wbufs@.len() ==> (#[trigger] self.wbufs@[i])@.len() > 0
    }

    /// Nothing to send.
    pub fn new() -> (r: Self)
        ensures
            r.wf(),
            r.pending() == Seq::<Seq<u8>>::empty(),
    {
        WriteQueue { wbuf: Vec::new(), wbufs: Vec::new() }
    }

    /// Queues a buffer behind the others; it becomes the current buffer when
    /// nothing else waits.
    pub fn enqueue(&mut self, data: Vec<u8>)
        requires
            old(self).wf(),
            data@.len() > 0,
        ensures
            final(self).wf(),
            final(self).pending() == old(self).pending().push(data@),
    {
        if self.wbuf.len() == 0 {
            self.wbuf = data;
            proof {
                assert(self.wbufs@.map_values(|v: Vec<u8>| v@) =~= Seq::<Seq<u8>>::empty());
                assert(self.pending() =~= old(self).pending().push(data@));
            }
        } else {
            let ghost d = data@;
            self.wbufs.push(data);
            proof {
                assert(self.wbufs@.map_values(|v: Vec<u8>| v@) =~= old(self).wbufs@.map_values(|v: Vec<u8>| v@).push(d));
                assert(self.pending() =~= old(self).pending().push(d));
            }
        }
    }

    /// The buffer being sent (empty when nothing waits).
    pub fn current(&self) -> (r: &Vec<u8>)
        requires
            self.wf(),
        ensures
            self.pending().len() == 0 ==> r@.len() == 0,
            self.pending().len() > 0 ==> r@ == self.pending()[0],
    {
        &self.wbuf
    }

    /// The current buffer was sent: the next queued buffer becomes current.
    pub fn advance(&mut self)
        requires
            old(self).wf(),
        ensures
            final(self).wf(),
            final(self).pending() == old(self).pending().drop_first() || (old(self).pending().len() == 0
                && final(self).pending().len() == 0),
    {
        if self.wbufs.len() > 0 {
            let ghost rest = self.wbufs@.map_values(|v: Vec<u8>| v@);
            self.wbuf = self.wbufs.remove(0);
            proof {
                assert(self.wbufs@.map_values(|v: Vec<u8>| v@) =~= rest.drop_first());
                assert(self.pending() =~= old(self).pending().drop_first());
            }
        } else {
            self.wbuf = Vec::new();
            proof {
                if old(self).pending().len() > 0 {
                    assert(old(self).wbufs@.map_values(|v: Vec<u8>| v@) =~= Seq::<Seq<u8>>::empty());
                    assert(old(self).pending().drop_first() =~= Seq::<Seq<u8>>::empty());
                }
            }
        }
    }

    /// Whether nothing waits to be sent.
    pub fn is_empty(&self) -> (r: bool)
        requires
            self.wf(),
        ensures
            r == (self.pending().len() == 0),
    {
        self.wbuf.len() == 0
    }
}

/// How to bring a socket's registration with the event loop up to date.
#[derive(Clone, Copy, Debug, PartialEq, Eq, Structural)]
pub struct WatchPlan {
    /// Register the socket (again), for `evttype`, after dropping an old registration.
    pub reinsert: bool,
    /// Drop the registration.
    pub remove: bool,
    /// The event kinds the socket is registered for afterwards.
    pub evttype: u32,
}

/// The event kinds a socket must be watched for: read while a read is
/// pending, write while a write or a connection is pending.
pub open spec fn spec_wanted(inrd: bool, inwr: bool) -> u32 {
    (if inrd { READ_EVENT } else { 0u32 }) | (if inwr { WRITE_EVENT } else { 0u32 })
}

/// Decides how the registration of a socket must change: while an operation
/// is pending, a socket that is not registered, or registered for kinds that
/// do not match the pending operations, is registered again for exactly those
/// kinds; once nothing is pending, the registration is dropped.
pub fn plan_watch(inrd: bool, inwr: bool, insertsock: bool, evttype: u32) -> (r: WatchPlan)
    ensures
        (inrd || inwr) ==> !r.remove && r.reinsert == (!insertsock || (inrd != ((evttype & READ_EVENT) != 0)) || (
        inwr != ((evttype & WRITE_EVENT) != 0))),
        (inrd || inwr) && r.reinsert ==> r.evttype == spec_wanted(inrd, inwr),
        (inrd || inwr) && !r.reinsert ==> r.evttype == evttype,
        !(inrd || inwr) ==> r.remove && !r.reinsert && r.evttype == 0,
{
    let mut willinsert: bool = false;
    let mut willremove: bool = false;
    if inrd || inwr {
        if !insertsock {
            willinsert = true;
        }
        if inrd && (evttype & READ_EVENT) == 0 {
            willinsert = true;
        }
        if inwr && (evttype & WRITE_EVENT) == 0 {
            willinsert = true;
        }
        if !inrd && (evttype & READ_EVENT) != 0 {
            willinsert = true;
        }
        if !inwr && (evttype & WRITE_EVENT) != 0 {
            willinsert = true;
        }
    }
    if !inrd && !inwr {
        willremove = true;
    }
    let mut newtype: u32 = evttype;
    if willinsert {
        newtype = (if inrd { READ_EVENT } else { 0u32 }) | (if inwr { WRITE_EVENT } else { 0u32 });
    }
    if willremove {
        newtype = 0;
    }
    WatchPlan { reinsert: willinsert, remove: willremove, evttype: newtype }
}

/// After following a plan, a socket with pending operations is registered for
/// read exactly when a read is pending and for write exactly when a write or
/// connection is pending.
pub proof fn law_watch_matches_pending(inrd: bool, inwr: bool, insertsock: bool, evttype: u32)
    requires
        inrd || inwr,
    ensures
        ({
            let newtype = if !insertsock || (inrd != ((evttype & READ_EVENT) != 0)) || (inwr != ((evttype
                & WRITE_EVENT) != 0)) {
                spec_wanted(inrd, inwr)
            } else {
                evttype
            };
            &&& ((newtype & READ_EVENT) != 0) == inrd
            &&& ((newtype & WRITE_EVENT) != 0) == inwr
        }),
{
    let w = spec_wanted(inrd, inwr);
    assert(((((if inrd { 1u32 } else { 0u32 }) | (if inwr { 2u32 } else { 0u32 })) & 1u32) != 0) == inrd
        && ((((if inrd { 1u32 } else { 0u32 }) | (if inwr { 2u32 } else { 0u32 })) & 2u32) != 0) == inwr) by (bit_vector);
}

} // verus!
