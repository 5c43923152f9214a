use vstd::prelude::*;
use crate::consts::INVALID_EVENT_HANDLE;
use crate::eventfd::{normalize_errno, spec_normalize_errno};

verus! {

/// The descriptor value of a socket that is not open.
pub const DEFAULT_SOCKET: i32 = -2;

/// The role of a TCP socket handle.
#[derive(Clone, Copy, Debug, PartialEq, Eq, Structural)]
pub enum TcpSockType {
    SockNoneType,
    SockServerType,
    SockServerConnType,
    SockClientType,
}

/// The system call that an operating-system error came from.
#[derive(Clone, Copy, Debug, PartialEq, Eq, Structural)]
pub enum SockOp {
    Socket,
    NonBlock,
    ReuseAddr,
    Bind,
    Listen,
    Accept,
    SetErrorOpt,
    Connect,
    Select,
    GetErrorOpt,
    PeerName,
    SockName,
    Read,
    Write,
}

/// Errors of a TCP socket handle.
#[derive(Clone, Copy, Debug, PartialEq, Eq, Structural)]
pub enum SockHandleError {
    /// A system call failed; the code is the negated errno.
    Os(SockOp, i32),
    /// An accept is already pending or an accepted socket is waiting.
    AlreadyInAccept,
    /// Only a listening socket accepts.
    NotAcceptType,
    /// No connection has been accepted yet.
    NotAccepted,
    /// The peer address is empty or the port is not in `1..65536`.
    InvalidTarget,
    /// The connection attempt ended with this socket error.
    ConnectRefused(i32),
    /// A read is pending, or the socket is accepting, connecting or closed.
    InvalidReadState,
    /// A write is pending, or the socket is accepting, connecting or closed.
    InvalidWriteState,
    /// The peer closed the connection while bytes were still owed to a read.
    Closed,
}

/// What a non-blocking `accept` gave back.
#[derive(Clone, Copy)]
pub enum AcceptOutcome {
    /// A connection, on this descriptor.
    Accepted(i32),
    /// No connection; `would_block` when that only means "not yet".
    Failed { errno: i32, would_block: bool },
}

/// What a non-blocking `connect` gave back.
#[derive(Clone, Copy)]
pub enum ConnectOutcome {
    Connected,
    /// Failed; `in_progress` when the connection is still being made.
    Failed { errno: i32, in_progress: bool },
}

/// What reading the socket error of a connecting socket gave back.
#[derive(Clone, Copy)]
pub enum ConnectProbe {
    /// The pending socket error; `0` means connected.
    Status(i32),
    /// The option could not be read; `in_progress` when that only means "not yet".
    Failed { errno: i32, in_progress: bool },
}

/// What one non-blocking `recv` or `send` gave back.
#[derive(Clone, Copy)]
pub enum IoOutcome {
    /// This many bytes moved.
    Done(u32),
    /// Nothing moved; `would_block` when that only means "not yet".
    Failed { errno: i32, would_block: bool },
}

/// The abstract state of a socket handle.
pub struct SockView {
    pub sock: i32,
    pub accsock: i32,
    pub mtype: TcpSockType,
    pub inacc: i32,
    pub inconn: i32,
    pub inrd: i32,
    pub inwr: i32,
    pub rdlen: u32,
    pub wrlen: u32,
    pub closeerr: bool,
    pub peeraddr: Seq<char>,
    pub peerport: u32,
    pub localaddr: Seq<char>,
    pub localport: u32,
}

/// The state of a TCP socket handle: its descriptors, its role, which
/// operation is pending, how much of a pending read or write is left, and the
/// two endpoints.
pub struct TcpSockHandleInner {
    sock: i32,
    accsock: i32,
    mtype: TcpSockType,
    inacc: i32,
    inconn: i32,
    inrd: i32,
    inwr: i32,
    rdlen: u32,
    wrlen: u32,
    closeerr: bool,
    peeraddr: String,
    peerport: u32,
    localaddr: String,
    localport: u32,
}

/// `Ok` when a system call returned a non-negative value, else its error.
pub open spec fn spec_os_result(reti: i32, errno: i32, op: SockOp) -> Result<(), SockHandleError> {
    if reti < 0 {
        Err(SockHandleError::Os(op, spec_normalize_errno(errno)))
    } else {
        Ok(())
    }
}

/// Maps the return value of a system call to `Ok` or to its error.
pub fn os_result(reti: i32, errno: i32, op: SockOp) -> (r: Result<(), SockHandleError>)
    ensures
        r == spec_os_result(reti, errno, op),
{
    if reti < 0 {
        Err(SockHandleError::Os(op, normalize_errno(errno)))
    } else {
        Ok(())
    }
}

/// The target of a connection is valid: a non-empty address and a port in `1..65536`.
pub fn check_connect_target(ipaddr: &str, port: u32) -> (r: Result<(), SockHandleError>)
    ensures
        r is Ok <==> (ipaddr@.len() > 0 && port != 0 && port < 65536),
        r is Err ==> r == Err::<(), SockHandleError>(SockHandleError::InvalidTarget),
{
    if ipaddr.is_empty() || port == 0 || port >= 65536 {
        return Err(SockHandleError::InvalidTarget);
    }
    Ok(())
}

/// The address word of an IPv4 address whose octets are `o`, first octet
/// in the lowest byte.
pub open spec fn spec_pack_ipv4(o: [u8; 4]) -> u32 {
    (o[0] as u32) | ((o[1] as u32) << 8u32) | ((o[2] as u32) << 16u32) | ((o[3] as u32) << 24u32)
}

/// The octets of an IPv4 address word, lowest byte first.
pub open spec fn spec_unpack_ipv4(s: u32) -> [u8; 4] {
    [(s & 0xff) as u8, ((s >> 8u32) & 0xff) as u8, ((s >> 16u32) & 0xff) as u8, ((s >> 24u32) & 0xff) as u8]
}

/// Packs the octets of an IPv4 address into an address word.
pub fn pack_ipv4(octs: [u8; 4]) -> (r: u32)
    ensures
        r == spec_pack_ipv4(octs),
{
    let a = octs[0] as u32;
    let b = octs[1] as u32;
    let c = octs[2] as u32;
    let d = octs[3] as u32;
    a | (b << 8u32) | (c << 16u32) | (d << 24u32)
}

/// Unpacks an address word into the octets of an IPv4 address.
pub fn unpack_ipv4(s: u32) -> (r: [u8; 4])
    ensures
        r == spec_unpack_ipv4(s),
{
    [(s & 0xff) as u8, ((s >> 8u32) & 0xff) as u8, ((s >> 16u32) & 0xff) as u8, ((s >> 24u32) & 0xff) as u8]
}

/// Unpacking a packed IPv4 address gives back its octets, and packing the
/// octets of an address word gives back the word.
pub proof fn law_ipv4_roundtrip(o: [u8; 4], w: u32)
    ensures
        spec_unpack_ipv4(spec_pack_ipv4(o)) == o,
        spec_pack_ipv4(spec_unpack_ipv4(w)) == w,
{
    let (a, b, c, d) = (o[0], o[1], o[2], o[3]);
    let p = spec_pack_ipv4(o);
    assert((p & 0xff) as u8 == a && ((p >> 8u32) & 0xff) as u8 == b && ((p >> 16u32) & 0xff) as u8 == c
        && ((p >> 24u32) & 0xff) as u8 == d) by (bit_vector)
        requires
            p == (a as u32) | ((b as u32) << 8u32) | ((c as u32) << 16u32) | ((d as u32) << 24u32),
    ;
    assert(spec_unpack_ipv4(p) =~= o);
    assert((((w & 0xff) as u8) as u32) | ((((w >> 8u32) & 0xff) as u8 as u32) << 8u32) | ((((w >> 16u32)
        & 0xff) as u8 as u32) << 16u32) | ((((w >> 24u32) & 0xff) as u8 as u32) << 24u32) == w) by (bit_vector);
}

/// The decimal digits of `n`, most significant first.
pub open spec fn spec_decimal(n: nat) -> Seq<char>
    decreases n,
{
    if n < 10 {
        seq![spec_digit(n)]
    } else {
        spec_decimal(n / 10) + seq![spec_digit(n % 10)]
    }
}

/// The character of decimal digit `d`.
pub open spec fn spec_digit(d: nat) -> char {
    if d == 0 { '0' } else if d == 1 { '1' } else if d == 2 { '2' } else if d == 3 { '3' } else if d == 4 {
        '4'
    } else if d == 5 { '5' } else if d == 6 { '6' } else if d == 7 { '7' } else if d == 8 { '8' } else { '9' }
}

/// The value of a decimal digit character.
pub open spec fn spec_digit_value(c: char) -> int {
    (c as int) - ('0' as int)
}

/// The number that a string of decimal digits reads as.
pub open spec fn spec_numeral_value(s: Seq<char>) -> int
    decreases s.len(),
{
    if s.len() == 0 {
        0
    } else {
        spec_numeral_value(s.drop_last()) * 10 + spec_digit_value(s.last())
    }
}

proof fn lemma_digit(d: nat)
    requires
        d < 10,
    ensures
        '0' <= spec_digit(d) <= '9',
        spec_digit_value(spec_digit(d)) == d,
        d > 0 ==> spec_digit(d) != '0',
{
    if d == 0 {
    } else if d == 1 {
    } else if d == 2 {
    } else if d == 3 {
    } else if d == 4 {
    } else if d == 5 {
    } else if d == 6 {
    } else if d == 7 {
    } else if d == 8 {
    } else {
        assert(d == 9);
    }
}

/// `spec_decimal(n)` is the decimal numeral of `n`: a non-empty string of the
/// characters `0` to `9` that reads back as `n`, with no leading zero except
/// for `0` itself, which is the single character `0`.
pub proof fn law_decimal_numeral(n: nat)
    ensures
        spec_decimal(n).len() > 0,
        forall|i: int| 0 <= i < spec_decimal(n).len() ==> '0' <= #[trigger] spec_decimal(n)[i] <= '9',
        spec_numeral_value(spec_decimal(n)) == n,
        n > 0 ==> spec_decimal(n)[0] != '0',
        n == 0 ==> spec_decimal(n) == seq!['0'],
    decreases n,
{
    if n < 10 {
        assert(spec_decimal(n) == seq![spec_digit(n)]);
        let one = seq![spec_digit(n)];
        assert(one.drop_last() =~= Seq::<char>::empty());
        assert(spec_numeral_value(Seq::<char>::empty()) == 0);
        lemma_digit(n);
        assert(spec_numeral_value(one) == spec_numeral_value(one.drop_last()) * 10 + spec_digit_value(one.last()));
    } else {
        let hi = spec_decimal(n / 10);
        law_decimal_numeral(n / 10);
        let d = spec_digit(n % 10);
        assert(spec_decimal(n) == hi + seq![d]);
        assert((hi + seq![d]).drop_last() =~= hi);
        assert((hi + seq![d]).last() == d);
        lemma_digit(n % 10);
        let whole = hi + seq![d];
        assert(spec_numeral_value(whole) == spec_numeral_value(whole.drop_last()) * 10 + spec_digit_value(whole.last()));
        assert((n / 10) * 10 + n % 10 == n) by (nonlinear_arith);
        assert forall|i: int| 0 <= i < spec_decimal(n).len() implies '0' <= #[trigger] spec_decimal(n)[i] <= '9' by {
            if i < hi.len() {
                assert(spec_decimal(n)[i] == hi[i]);
            }
        }
        assert(spec_decimal(n)[0] == hi[0]);
    }
}

/// `addr:port`, the way endpoints are shown.
pub open spec fn spec_endpoint(addr: Seq<char>, port: u32) -> Seq<char> {
    addr + seq![':'] + spec_decimal(port as nat)
}

fn digit_str(d: u32) -> (r: &'static str)
    requires
        d < 10,
    ensures
        r@ == seq![spec_digit(d as nat)],
{
    proof {
        reveal_strlit("0");
        reveal_strlit("1");
        reveal_strlit("2");
        reveal_strlit("3");
        reveal_strlit("4");
        reveal_strlit("5");
        reveal_strlit("6");
        reveal_strlit("7");
        reveal_strlit("8");
        reveal_strlit("9");
    }
    if d == 0 { "0" } else if d == 1 { "1" } else if d == 2 { "2" } else if d == 3 { "3" } else if d == 4 {
        "4"
    } else if d == 5 { "5" } else if d == 6 { "6" } else if d == 7 { "7" } else if d == 8 { "8" } else { "9" }
}

fn append_decimal(s: &mut String, n: u32)
    ensures
        final(s)@ == old(s)@ + spec_decimal(n as nat),
    decreases n,
{
    if n >= 10 {
        append_decimal(s, n / 10);
    }
    s.append(digit_str(n % 10));
    proof {
        if n >= 10 {
            assert(final(s)@ =~= old(s)@ + spec_decimal(n as nat));
        } else {
            assert(final(s)@ =~= old(s)@ + spec_decimal(n as nat));
        }
    }
}

/// Formats an endpoint as `addr:port`.
pub fn format_endpoint(addr: &str, port: u32) -> (r: String)
    ensures
        r@ == spec_endpoint(addr@, port),
        r@.len() > addr@.len() + 1,
        r@.subrange(0, addr@.len() as int) == addr@,
        r@[addr@.len() as int] == ':',
        spec_numeral_value(r@.subrange(addr@.len() as int + 1, r@.len() as int)) == port,
        forall|i: int| addr@.len() < i < r@.len() ==> '0' <= #[trigger] r@[i] <= '9',
{
    let mut s = String::from_str(addr);
    proof {
        reveal_strlit(":");
    }
    s.append(":");
    append_decimal(&mut s, port);
    proof {
        law_decimal_numeral(port as nat);
        let d = spec_decimal(port as nat);
        assert(s@ == addr@ + seq![':'] + d);
        assert(s@.subrange(0, addr@.len() as int) =~= addr@);
        assert(s@.subrange(addr@.len() as int + 1, s@.len() as int) =~= d);
        assert forall|i: int| addr@.len() < i < s@.len() implies '0' <= #[trigger] s@[i] <= '9' by {
            assert(s@[i] == d[i - addr@.len() - 1]);
        }
    }
    s
}

/// The handle after `begin_read` started a read of `rlen` bytes on it.
pub open spec fn spec_read_started(v: SockView, rlen: u32) -> SockView {
    SockView { rdlen: rlen, inrd: 1, ..v }
}

/// The handle after a `recv` of `n` bytes (at most the bytes still owed):
/// all owed bytes in ends the read; no bytes while some are owed marks the
/// peer as closed; otherwise fewer bytes are owed.
pub open spec fn spec_read_step(v: SockView, n: u32) -> SockView {
    if n == v.rdlen {
        SockView { rdlen: 0, inrd: 0, ..v }
    } else if n == 0 {
        SockView { closeerr: true, ..v }
    } else {
        SockView { rdlen: (v.rdlen - n) as u32, ..v }
    }
}

/// What `read_progress` answers to a `recv` of `n` bytes.
pub open spec fn spec_read_step_result(v: SockView, n: u32) -> Result<bool, SockHandleError> {
    if n == v.rdlen {
        Ok(false)
    } else if n == 0 {
        Err(SockHandleError::Closed)
    } else {
        Ok(true)
    }
}

/// The handle after a run of `recv`s that moved `ns` bytes, one after the other.
pub open spec fn spec_read_all(v: SockView, ns: Seq<u32>) -> SockView
    decreases ns.len(),
{
    if ns.len() == 0 {
        v
    } else {
        spec_read_all(spec_read_step(v, ns[0]), ns.drop_first())
    }
}

/// The number of bytes that a run of `recv`s moved.
pub open spec fn spec_sum(ns: Seq<u32>) -> int
    decreases ns.len(),
{
    if ns.len() == 0 {
        0
    } else {
        ns[0] + spec_sum(ns.drop_first())
    }
}

/// A read started by `begin_read` on an idle handle and fed, through
/// `read_progress`, `recv`s that each move some bytes and together move the
/// requested count ends with the handle as it was and nothing owed.
pub proof fn law_read_completes(v: SockView, ns: Seq<u32>)
    requires
        v.inrd == 0,
        ns.len() > 0,
        forall|i: int| 0 <= i < ns.len() ==> #[trigger] ns[i] > 0,
        spec_sum(ns) <= u32::MAX,
    ensures
        spec_read_all(spec_read_started(v, spec_sum(ns) as u32), ns) == (SockView { rdlen: 0, ..v }),
    decreases ns.len(),
{
    lemma_sum_nonneg(ns);
    lemma_read_all(spec_read_started(v, spec_sum(ns) as u32), ns);
}

proof fn lemma_read_all(w: SockView, ns: Seq<u32>)
    requires
        forall|i: int| 0 <= i < ns.len() ==> #[trigger] ns[i] > 0,
        w.rdlen == spec_sum(ns),
        ns.len() > 0,
    ensures
        spec_read_all(w, ns) == (SockView { rdlen: 0, inrd: 0, ..w }),
    decreases ns.len(),
{
    if ns.len() > 0 {
        let rest = ns.drop_first();
        assert(forall|i: int| 0 <= i < rest.len() ==> rest[i] == ns[i + 1]);
        assert(spec_sum(ns) == ns[0] + spec_sum(rest));
        lemma_sum_nonneg(rest);
        let w2 = spec_read_step(w, ns[0]);
        assert(spec_read_all(w, ns) == spec_read_all(w2, rest));
        if rest.len() == 0 {
            assert(spec_sum(rest) == 0);
            assert(w2 == (SockView { rdlen: 0, inrd: 0, ..w }));
            assert(spec_read_all(w2, rest) == w2);
        } else {
            lemma_sum_pos(rest);
            assert(w2 == (SockView { rdlen: (w.rdlen - ns[0]) as u32, ..w }));
            lemma_read_all(w2, rest);
        }
    }
}

proof fn lemma_sum_nonneg(ns: Seq<u32>)
    ensures
        spec_sum(ns) >= 0,
    decreases ns.len(),
{
    if ns.len() > 0 {
        lemma_sum_nonneg(ns.drop_first());
    }
}

proof fn lemma_sum_pos(ns: Seq<u32>)
    requires
        ns.len() > 0,
        forall|i: int| 0 <= i < ns.len() ==> #[trigger] ns[i] > 0,
    ensures
        spec_sum(ns) > 0,
{
    lemma_sum_nonneg(ns.drop_first());
}

/// Sockets need no process-wide set-up here.
pub fn init_socket() -> (r: Result<(), SockHandleError>)
    ensures
        r is Ok,
{
    Ok(())
}

/// Sockets need no process-wide tear-down here.
pub fn fini_socket() {
}

impl View for TcpSockHandleInner {
    type V = SockView;

    closed spec fn view(&self) -> SockView {
        SockView {
            sock: self.sock,
            accsock: self.accsock,
            mtype: self.mtype,
            inacc: self.inacc,
            inconn: self.inconn,
            inrd: self.inrd,
            inwr: self.inwr,
            rdlen: self.rdlen,
            wrlen: self.wrlen,
            closeerr: self.closeerr,
            peeraddr: self.peeraddr@,
            peerport: self.peerport,
            localaddr: self.localaddr@,
            localport: self.localport,
        }
    }
}

impl TcpSockHandleInner {
    /// An accepted socket that is waiting is never also an accept in progress.
    pub closed spec fn wf(&self) -> bool {
        self.accsock >= 0 ==> self.inacc == 0
    }

    /// A closed handle of role `socktype`.
    pub fn new(socktype: TcpSockType) -> (r: Self)
        ensures
            r.wf(),
            r@.sock == DEFAULT_SOCKET,
            r@.accsock == DEFAULT_SOCKET,
            r@.mtype == socktype,
            r@.inacc == 0 && r@.inconn == 0 && r@.inrd == 0 && r@.inwr == 0,
            r@.rdlen == 0 && r@.wrlen == 0 && !r@.closeerr,
            r@.peeraddr == Seq::<char>::empty() && r@.peerport == 0,
            r@.localaddr == Seq::<char>::empty() && r@.localport == 0,
    {
        TcpSockHandleInner {
            sock: DEFAULT_SOCKET,
            accsock: DEFAULT_SOCKET,
            mtype: socktype,
            inacc: 0,
            inconn: 0,
            inrd: 0,
            inwr: 0,
            rdlen: 0,
            wrlen: 0,
            closeerr: false,
            peeraddr: String::new(),
            peerport: 0,
            localaddr: String::new(),
            localport: 0,
        }
    }

    /// Fails when an accept is pending or an accepted socket is waiting.
    pub fn begin_accept(&self) -> (r: Result<(), SockHandleError>)
        ensures
            r is Err <==> (self@.inacc > 0 || self@.accsock >= 0),
            r is Err ==> r == Err::<(), SockHandleError>(SockHandleError::AlreadyInAccept),
    {
        if self.inacc > 0 || self.accsock >= 0 {
            return Err(SockHandleError::AlreadyInAccept);
        }
        Ok(())
    }

    /// Records what a non-blocking `accept` gave back: a connection waits to be
    /// taken, "not yet" leaves an accept pending, anything else is an error.
    pub fn accept_result(&mut self, outcome: AcceptOutcome) -> (r: Result<(), SockHandleError>)
        requires
            old(self).wf(),
            old(self)@.inacc <= 0,
            old(self)@.accsock < 0,
            outcome matches AcceptOutcome::Accepted(fd) ==> fd >= 0,
        ensures
            final(self).wf(),
            match outcome {
                AcceptOutcome::Accepted(fd) => r is Ok && final(self)@ == (SockView { accsock: fd, inacc: 0, ..old(self)@ }),
                AcceptOutcome::Failed { errno, would_block } => if would_block {
                    r is Ok && final(self)@ == (SockView { inacc: 1, ..old(self)@ })
                } else {
                    r == Err::<(), SockHandleError>(SockHandleError::Os(SockOp::Accept, spec_normalize_errno(errno)))
                        && final(self)@ == old(self)@
                },
            },
    {
        match outcome {
            AcceptOutcome::Accepted(fd) => {
                self.accsock = fd;
                self.inacc = 0;
                Ok(())
            },
            AcceptOutcome::Failed { errno, would_block } => {
                if !would_block {
                    return Err(SockHandleError::Os(SockOp::Accept, normalize_errno(errno)));
                }
                self.inacc = 1;
                Ok(())
            },
        }
    }

    /// Whether completing an accept must first try `accept` again: a listening
    /// socket with no accepted connection waiting.
    pub fn needs_accept(&self) -> (r: bool)
        ensures
            r == (self@.mtype == TcpSockType::SockServerType && self@.accsock < 0),
    {
        self.mtype == TcpSockType::SockServerType && self.accsock < 0
    }

    /// `1` when no accept is pending, else `0`.
    pub fn accept_completed(&self) -> (r: i32)
        ensures
            r == (if self@.inacc > 0 { 0i32 } else { 1i32 }),
    {
        if self.inacc > 0 { 0 } else { 1 }
    }

    /// Fails unless this is a listening socket.
    pub fn check_accept_type(&self) -> (r: Result<(), SockHandleError>)
        ensures
            r is Ok <==> self@.mtype == TcpSockType::SockServerType,
            r is Err ==> r == Err::<(), SockHandleError>(SockHandleError::NotAcceptType),
    {
        match self.mtype {
            TcpSockType::SockServerType => Ok(()),
            _ => Err(SockHandleError::NotAcceptType),
        }
    }

    /// Whether an accepted connection is waiting to be taken.
    pub fn has_accepted(&self) -> (r: bool)
        ensures
            r == (self@.accsock >= 0),
    {
        self.accsock >= 0
    }

    /// Hands the waiting accepted connection over to a new handle of role
    /// `SockServerConnType` that shares the local endpoint.
    pub fn take_accepted(&mut self) -> (r: Result<Self, SockHandleError>)
        requires
            old(self).wf(),
        ensures
            final(self).wf(),
            old(self)@.mtype != TcpSockType::SockServerType ==> r == Err::<Self, SockHandleError>(
                SockHandleError::NotAcceptType,
            ) && final(self)@ == old(self)@,
            old(self)@.mtype == TcpSockType::SockServerType && old(self)@.accsock < 0 ==> r == Err::<
                Self,
                SockHandleError,
            >(SockHandleError::NotAccepted) && final(self)@ == old(self)@,
            old(self)@.mtype == TcpSockType::SockServerType && old(self)@.accsock >= 0 ==> (r matches Ok(c) && {
                &&& c.wf()
                &&& c@ == (SockView {
                    sock: old(self)@.accsock,
                    accsock: DEFAULT_SOCKET,
                    mtype: TcpSockType::SockServerConnType,
                    inacc: 0,
                    inconn: 0,
                    inrd: 0,
                    inwr: 0,
                    rdlen: 0,
                    wrlen: 0,
                    closeerr: false,
                    peeraddr: Seq::<char>::empty(),
                    peerport: 0,
                    localaddr: old(self)@.localaddr,
                    localport: old(self)@.localport,
                })
                &&& final(self)@ == (SockView { accsock: DEFAULT_SOCKET, ..old(self)@ })
            }),
    {
        if self.mtype != TcpSockType::SockServerType {
            return Err(SockHandleError::NotAcceptType);
        }
        if self.accsock < 0 {
            return Err(SockHandleError::NotAccepted);
        }
        let mut conn = TcpSockHandleInner::new(TcpSockType::SockServerConnType);
        conn.sock = self.accsock;
        self.accsock = DEFAULT_SOCKET;
        conn.localport = self.localport;
        conn.localaddr = self.localaddr.clone();
        Ok(conn)
    }

    /// Records the descriptor of a newly created socket.
    pub fn opened(&mut self, fd: i32, errno: i32) -> (r: Result<(), SockHandleError>)
        requires
            old(self).wf(),
        ensures
            final(self).wf(),
            fd < 0 ==> r == Err::<(), SockHandleError>(SockHandleError::Os(SockOp::Socket, spec_normalize_errno(errno)))
                && final(self)@ == (SockView { sock: fd, ..old(self)@ }),
            fd >= 0 ==> r is Ok && final(self)@ == (SockView { sock: fd, ..old(self)@ }),
    {
        self.sock = fd;
        if fd < 0 {
            return Err(SockHandleError::Os(SockOp::Socket, normalize_errno(errno)));
        }
        Ok(())
    }

    /// Records the local endpoint.
    pub fn set_local(&mut self, addr: &str, port: u32)
        requires
            old(self).wf(),
        ensures
            final(self).wf(),
            final(self)@ == (SockView { localaddr: addr@, localport: port, ..old(self)@ }),
    {
        self.localaddr = String::from_str(addr);
        self.localport = port;
    }

    /// Records the peer endpoint.
    pub fn set_peer(&mut self, addr: &str, port: u32)
        requires
            old(self).wf(),
        ensures
            final(self).wf(),
            final(self)@ == (SockView { peeraddr: addr@, peerport: port, ..old(self)@ }),
    {
        self.peeraddr = String::from_str(addr);
        self.peerport = port;
    }

    /// Checks the target of a connection and records it as the peer.
    pub fn begin_connect(&mut self, ipaddr: &str, port: u32) -> (r: Result<(), SockHandleError>)
        requires
            old(self).wf(),
        ensures
            final(self).wf(),
            (ipaddr@.len() > 0 && port != 0 && port < 65536) ==> r is Ok && final(self)@ == (SockView {
                peeraddr: ipaddr@,
                peerport: port,
                ..old(self)@
            }),
            !(ipaddr@.len() > 0 && port != 0 && port < 65536) ==> r == Err::<(), SockHandleError>(
                SockHandleError::InvalidTarget,
            ) && final(self)@ == old(self)@,
    {
        check_connect_target(ipaddr, port)?;
        self.set_peer(ipaddr, port);
        Ok(())
    }

    /// Records what a non-blocking `connect` gave back: connected, still
    /// connecting, or an error.
    pub fn connect_result(&mut self, outcome: ConnectOutcome) -> (r: Result<(), SockHandleError>)
        requires
            old(self).wf(),
        ensures
            final(self).wf(),
            match outcome {
                ConnectOutcome::Connected => r is Ok && final(self)@ == (SockView { inconn: 0, ..old(self)@ }),
                ConnectOutcome::Failed { errno, in_progress } => if in_progress {
                    r is Ok && final(self)@ == (SockView { inconn: 1, ..old(self)@ })
                } else {
                    r == Err::<(), SockHandleError>(SockHandleError::Os(SockOp::Connect, spec_normalize_errno(errno)))
                        && final(self)@ == old(self)@
                },
            },
    {
        match outcome {
            ConnectOutcome::Connected => {
                self.inconn = 0;
                Ok(())
            },
            ConnectOutcome::Failed { errno, in_progress } => {
                if !in_progress {
                    return Err(SockHandleError::Os(SockOp::Connect, normalize_errno(errno)));
                }
                self.inconn = 1;
                Ok(())
            },
        }
    }

    /// Whether completing a connection must read the socket error: a client
    /// socket that is still connecting.
    pub fn needs_connect_probe(&self) -> (r: bool)
        ensures
            r == (self@.mtype == TcpSockType::SockClientType && self@.inconn > 0),
    {
        self.mtype == TcpSockType::SockClientType && self.inconn > 0
    }

    /// Completes a pending connection with the socket error read by the caller
    /// (`None` when it was not read): `1` when no connection is pending any
    /// more, `0` while it still is.
    pub fn complete_connect(&mut self, probe: Option<ConnectProbe>) -> (r: Result<i32, SockHandleError>)
        requires
            old(self).wf(),
        ensures
            final(self).wf(),
            !(old(self)@.mtype == TcpSockType::SockClientType && old(self)@.inconn > 0) ==> final(self)@ == old(self)@
                && r == Ok::<i32, SockHandleError>(if old(self)@.inconn > 0 { 0i32 } else { 1i32 }),
            old(self)@.mtype == TcpSockType::SockClientType && old(self)@.inconn > 0 ==> match probe {
                None => r == Ok::<i32, SockHandleError>(0i32) && final(self)@ == old(self)@,
                Some(ConnectProbe::Failed { errno, in_progress }) => final(self)@ == old(self)@ && if in_progress {
                    r == Ok::<i32, SockHandleError>(0i32)
                } else {
                    r == Err::<i32, SockHandleError>(SockHandleError::Os(SockOp::GetErrorOpt, spec_normalize_errno(errno)))
                },
                Some(ConnectProbe::Status(e)) => if e != 0 {
                    r == Err::<i32, SockHandleError>(SockHandleError::ConnectRefused(e)) && final(self)@ == old(self)@
                } else {
                    r == Ok::<i32, SockHandleError>(1i32) && final(self)@ == (SockView { inconn: 0, ..old(self)@ })
                },
            },
    {
        if self.mtype == TcpSockType::SockClientType && self.inconn > 0 {
            match probe {
                None => {},
                Some(ConnectProbe::Failed { errno, in_progress }) => {
                    if !in_progress {
                        return Err(SockHandleError::Os(SockOp::GetErrorOpt, normalize_errno(errno)));
                    }
                },
                Some(ConnectProbe::Status(e)) => {
                    if e != 0 {
                        return Err(SockHandleError::ConnectRefused(e));
                    }
                    self.inconn = 0;
                },
            }
        }
        if self.inconn > 0 { Ok(0) } else { Ok(1) }
    }

    /// Starts reading `rlen` bytes; refused while a read is pending, while the
    /// socket is accepting or connecting, or when it is closed.
    pub fn begin_read(&mut self, rlen: u32) -> (r: Result<(), SockHandleError>)
        requires
            old(self).wf(),
        ensures
            final(self).wf(),
            (old(self)@.inrd > 0 || old(self)@.inacc > 0 || old(self)@.inconn > 0 || old(self)@.sock < 0) ==> r
                == Err::<(), SockHandleError>(SockHandleError::InvalidReadState) && final(self)@ == old(self)@,
            !(old(self)@.inrd > 0 || old(self)@.inacc > 0 || old(self)@.inconn > 0 || old(self)@.sock < 0) ==> r is Ok
                && final(self)@ == spec_read_started(old(self)@, rlen),
    {
        if self.inrd > 0 || self.inacc > 0 || self.inconn > 0 || self.sock < 0 {
            return Err(SockHandleError::InvalidReadState);
        }
        self.rdlen = rlen;
        self.inrd = 1;
        Ok(())
    }

    /// Starts writing `wlen` bytes; refused while a write is pending, while the
    /// socket is accepting or connecting, or when it is closed.
    pub fn begin_write(&mut self, wlen: u32) -> (r: Result<(), SockHandleError>)
        requires
            old(self).wf(),
        ensures
            final(self).wf(),
            (old(self)@.inwr > 0 || old(self)@.inacc > 0 || old(self)@.inconn > 0 || old(self)@.sock < 0) ==> r
                == Err::<(), SockHandleError>(SockHandleError::InvalidWriteState) && final(self)@ == old(self)@,
            !(old(self)@.inwr > 0 || old(self)@.inacc > 0 || old(self)@.inconn > 0 || old(self)@.sock < 0) ==> r is Ok
                && final(self)@ == (SockView { wrlen: wlen, inwr: 1, ..old(self)@ }),
    {
        if self.inwr > 0 || self.inacc > 0 || self.inconn > 0 || self.sock < 0 {
            return Err(SockHandleError::InvalidWriteState);
        }
        self.wrlen = wlen;
        self.inwr = 1;
        Ok(())
    }

    /// Records one `recv` of the pending read. `Ok(true)` asks for another
    /// `recv`; `Ok(false)` stops, with the read finished (all bytes in) or
    /// still pending ("not yet"). A `recv` of no bytes while bytes are still
    /// owed means the peer closed the connection: the read fails with
    /// `Closed` and the handle remembers it (`is_close_error`).
    pub fn read_progress(&mut self, outcome: IoOutcome) -> (r: Result<bool, SockHandleError>)
        requires
            old(self).wf(),
            outcome matches IoOutcome::Done(n) ==> n <= old(self)@.rdlen,
        ensures
            final(self).wf(),
            match outcome {
                IoOutcome::Done(n) => final(self)@ == spec_read_step(old(self)@, n) && r == spec_read_step_result(
                    old(self)@,
                    n,
                ),
                IoOutcome::Failed { errno, would_block } => final(self)@ == old(self)@ && if would_block {
                    r == Ok::<bool, SockHandleError>(false)
                } else {
                    r == Err::<bool, SockHandleError>(SockHandleError::Os(SockOp::Read, spec_normalize_errno(errno)))
                },
            },
    {
        match outcome {
            IoOutcome::Done(n) => {
                if n == self.rdlen {
                    self.rdlen = 0;
                    self.inrd = 0;
                    return Ok(false);
                }
                if n == 0 {
                    self.closeerr = true;
                    return Err(SockHandleError::Closed);
                }
                self.rdlen = self.rdlen - n;
                Ok(true)
            },
            IoOutcome::Failed { errno, would_block } => {
                if would_block {
                    return Ok(false);
                }
                Err(SockHandleError::Os(SockOp::Read, normalize_errno(errno)))
            },
        }
    }

    /// Whether a read ended because the peer closed the connection.
    pub fn is_close_error(&self) -> (r: bool)
        ensures
            r == self@.closeerr,
    {
        self.closeerr
    }

    /// Records one `send` of the pending write; see `read_progress`.
    pub fn write_progress(&mut self, outcome: IoOutcome) -> (r: Result<bool, SockHandleError>)
        requires
            old(self).wf(),
            outcome matches IoOutcome::Done(n) ==> n <= old(self)@.wrlen,
        ensures
            final(self).wf(),
            match outcome {
                IoOutcome::Done(n) => if n == old(self)@.wrlen {
                    r == Ok::<bool, SockHandleError>(false) && final(self)@ == (SockView { wrlen: 0, inwr: 0, ..old(self)@ })
                } else {
                    r == Ok::<bool, SockHandleError>(true) && final(self)@ == (SockView { wrlen: (old(self)@.wrlen - n) as u32, ..old(self)@ })
                },
                IoOutcome::Failed { errno, would_block } => final(self)@ == old(self)@ && if would_block {
                    r == Ok::<bool, SockHandleError>(false)
                } else {
                    r == Err::<bool, SockHandleError>(SockHandleError::Os(SockOp::Write, spec_normalize_errno(errno)))
                },
            },
    {
        match outcome {
            IoOutcome::Done(n) => {
                self.wrlen = self.wrlen - n;
                if self.wrlen == 0 {
                    self.inwr = 0;
                    return Ok(false);
                }
                Ok(true)
            },
            IoOutcome::Failed { errno, would_block } => {
                if would_block {
                    return Ok(false);
                }
                Err(SockHandleError::Os(SockOp::Write, normalize_errno(errno)))
            },
        }
    }

    /// How many bytes the pending read still wants.
    pub fn pending_read_len(&self) -> (r: u32)
        ensures
            r == self@.rdlen,
    {
        self.rdlen
    }

    /// How many bytes the pending write still has to send.
    pub fn pending_write_len(&self) -> (r: u32)
        ensures
            r == self@.wrlen,
    {
        self.wrlen
    }

    /// `1` when no read is pending, else `0`.
    pub fn read_completed(&self) -> (r: i32)
        ensures
            r == (if self@.inrd > 0 { 0i32 } else { 1i32 }),
    {
        if self.inrd > 0 { 0 } else { 1 }
    }

    /// `1` when no write is pending, else `0`.
    pub fn write_completed(&self) -> (r: i32)
        ensures
            r == (if self@.inwr > 0 { 0i32 } else { 1i32 }),
    {
        if self.inwr > 0 { 0 } else { 1 }
    }

    /// The handle to wait on for a pending accept, else `INVALID_EVENT_HANDLE`.
    pub fn get_accept_handle(&self) -> (r: u64)
        ensures
            r == (if self@.inacc > 0 { self@.sock as u64 } else { INVALID_EVENT_HANDLE }),
    {
        let mut retv: u64 = INVALID_EVENT_HANDLE;
        if self.inacc > 0 {
            retv = self.sock as u64;
        }
        retv
    }

    /// The handle to wait on for a pending read, else `INVALID_EVENT_HANDLE`.
    pub fn get_read_handle(&self) -> (r: u64)
        ensures
            r == (if self@.inrd > 0 { self@.sock as u64 } else { INVALID_EVENT_HANDLE }),
    {
        let mut retv: u64 = INVALID_EVENT_HANDLE;
        if self.inrd > 0 {
            retv = self.sock as u64;
        }
        retv
    }

    /// The handle to wait on for a pending write, else `INVALID_EVENT_HANDLE`.
    pub fn get_write_handle(&self) -> (r: u64)
        ensures
            r == (if self@.inwr > 0 { self@.sock as u64 } else { INVALID_EVENT_HANDLE }),
    {
        let mut retv: u64 = INVALID_EVENT_HANDLE;
        if self.inwr > 0 {
            retv = self.sock as u64;
        }
        retv
    }

    /// Whether an accept is pending.
    pub fn is_accept_mode(&self) -> (r: bool)
        ensures
            r == (self@.inacc > 0),
    {
        self.inacc > 0
    }

    /// Whether a connection is pending.
    pub fn is_connect_mode(&self) -> (r: bool)
        ensures
            r == (self@.inconn > 0),
    {
        self.inconn > 0
    }

    /// Whether a read is pending.
    pub fn is_read_mode(&self) -> (r: bool)
        ensures
            r == (self@.inrd > 0),
    {
        self.inrd > 0
    }

    /// Whether a write is pending.
    pub fn is_write_mode(&self) -> (r: bool)
        ensures
            r == (self@.inwr > 0),
    {
        self.inwr > 0
    }

    /// The local endpoint as `addr:port`.
    pub fn get_self_format(&self) -> (r: String)
        ensures
            r@ == spec_endpoint(self@.localaddr, self@.localport),
    {
        format_endpoint(self.localaddr.as_str(), self.localport)
    }

    /// The peer endpoint as `addr:port`.
    pub fn get_peer_format(&self) -> (r: String)
        ensures
            r@ == spec_endpoint(self@.peeraddr, self@.peerport),
    {
        format_endpoint(self.peeraddr.as_str(), self.peerport)
    }

    /// The socket descriptor as a handle.
    pub fn get_sock_real(&self) -> (r: u64)
        ensures
            r == self@.sock as u64,
    {
        self.sock as u64
    }

    /// The raw socket descriptor.
    pub fn sock_fd(&self) -> (r: i32)
        ensures
            r == self@.sock,
    {
        self.sock
    }

    /// The raw descriptor of the accepted connection that waits, if any.
    pub fn accepted_fd(&self) -> (r: i32)
        ensures
            r == self@.accsock,
    {
        self.accsock
    }

    /// Resets the handle to the closed state of role `SockNoneType` and returns
    /// the descriptors that must be closed.
    pub fn close(&mut self) -> (r: (Option<i32>, Option<i32>))
        ensures
            final(self).wf(),
            r.0 == (if old(self)@.sock >= 0 { Some(old(self)@.sock) } else { None::<i32> }),
            r.1 == (if old(self)@.accsock >= 0 { Some(old(self)@.accsock) } else { None::<i32> }),
            final(self)@ == (SockView {
                sock: DEFAULT_SOCKET,
                accsock: DEFAULT_SOCKET,
                mtype: TcpSockType::SockNoneType,
                inacc: 0,
                inconn: 0,
                inrd: 0,
                inwr: 0,
                rdlen: 0,
                wrlen: 0,
                closeerr: false,
                peeraddr: Seq::<char>::empty(),
                peerport: 0,
                localaddr: Seq::<char>::empty(),
                localport: 0,
            }),
    {
        let s = if self.sock >= 0 { Some(self.sock) } else { None };
        let a = if self.accsock >= 0 { Some(self.accsock) } else { None };
        self.sock = DEFAULT_SOCKET;
        self.accsock = DEFAULT_SOCKET;
        self.mtype = TcpSockType::SockNoneType;
        self.inacc = 0;
        self.inconn = 0;
        self.inrd = 0;
        self.inwr = 0;
        self.rdlen = 0;
        self.wrlen = 0;
        self.closeerr = false;
        self.localaddr = String::new();
        self.localport = 0;
        self.peeraddr = String::new();
        self.peerport = 0;
        (s, a)
    }
}

} // verus!
