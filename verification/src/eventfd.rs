use vstd::prelude::*;
use crate::consts::{EVENT_NO_AUTO_RESET, INVALID_EVENT_HANDLE};

verus! {

/// Errors of an event handle.
#[derive(Clone, Copy, Debug, PartialEq, Eq, Structural)]
pub enum EventFdError {
    /// The operating system could not create the handle; the code is the negated errno.
    CannotInit(i32),
    /// The handle is closed or was never opened.
    NotValid,
    /// The operating system refused to signal the handle.
    CannotSet(i32),
    /// The operating system refused to clear the handle.
    CannotReset(i32),
}

/// The state of an event handle: its descriptor (`-1` when closed), its name
/// and its flags.
pub struct EventFdInner {
    evt: i32,
    name: String,
    flags: u32,
}

/// The negated errno convention: a positive errno `e` becomes `-e`, no errno
/// becomes `-1`, and a value that is already negative stays.
pub open spec fn spec_normalize_errno(raw: i32) -> i32 {
    if raw > 0 {
        (-raw) as i32
    } else if raw == 0 {
        -1i32
    } else {
        raw
    }
}

/// Turns a raw errno into the negative code that errors carry.
pub fn normalize_errno(raw: i32) -> (r: i32)
    ensures
        r == spec_normalize_errno(raw),
        r < 0,
{
    if raw > 0 {
        -raw
    } else if raw == 0 {
        -1
    } else {
        raw
    }
}

impl EventFdInner {
    /// The descriptor, `-1` when closed.
    pub closed spec fn fd(&self) -> i32 {
        self.evt
    }

    /// The name given at creation.
    pub closed spec fn name_view(&self) -> Seq<char> {
        self.name@
    }

    /// The flags given at creation.
    pub closed spec fn flag_bits(&self) -> u32 {
        self.flags
    }

    /// Wraps the descriptor that the operating system returned for a new event
    /// handle; a negative descriptor means creation failed with `errno`.
    pub fn new(evt: i32, errno: i32, flags: u32, name: &str) -> (r: Result<Self, EventFdError>)
        ensures
            evt < 0 ==> r == Err::<Self, EventFdError>(EventFdError::CannotInit(spec_normalize_errno(errno))),
            evt >= 0 ==> (r matches Ok(e) && e.fd() == evt && e.name_view() == name@ && e.flag_bits() == flags),
    {
        if evt < 0 {
            return Err(EventFdError::CannotInit(normalize_errno(errno)));
        }
        Ok(EventFdInner { evt, name: String::from_str(name), flags })
    }

    /// Fails when the handle is closed, before it is signalled.
    pub fn check_valid(&self) -> (r: Result<(), EventFdError>)
        ensures
            self.fd() < 0 ==> r == Err::<(), EventFdError>(EventFdError::NotValid),
            self.fd() >= 0 ==> r is Ok,
    {
        if self.evt < 0 {
            return Err(EventFdError::NotValid);
        }
        Ok(())
    }

    /// Whether a signal that was observed must be cleared: unless the handle
    /// was made with `EVENT_NO_AUTO_RESET`, observing it clears it.
    pub fn needs_auto_reset(&self, signalled: bool) -> (r: bool)
        ensures
            r == (signalled && (self.flag_bits() & EVENT_NO_AUTO_RESET) == 0),
    {
        signalled && (self.flags & EVENT_NO_AUTO_RESET) == 0
    }

    /// The handle to wait on, or `INVALID_EVENT_HANDLE` when closed.
    pub fn get_event(&self) -> (r: u64)
        ensures
            self.fd() >= 0 ==> r == self.fd() as u64,
            self.fd() < 0 ==> r == INVALID_EVENT_HANDLE,
    {
        let mut retv: u64 = INVALID_EVENT_HANDLE;
        if self.evt >= 0 {
            retv = self.evt as u64;
        }
        retv
    }

    /// The raw descriptor, negative when closed; waits and resets use it as it is.
    pub fn raw_fd(&self) -> (r: i32)
        ensures
            r == self.fd(),
    {
        self.evt
    }

    /// A copy of the name.
    pub fn get_name(&self) -> (r: String)
        ensures
            r@ == self.name_view(),
    {
        self.name.clone()
    }

    /// Marks the handle closed and returns the descriptor that must be closed, if any.
    pub fn close(&mut self) -> (r: Option<i32>)
        ensures
            old(self).fd() >= 0 ==> r == Some(old(self).fd()),
            old(self).fd() < 0 ==> r is None,
            old(self).fd() >= 0 ==> final(self).fd() == -1,
            old(self).fd() < 0 ==> final(self).fd() == old(self).fd(),
            final(self).name_view() == old(self).name_view(),
            final(self).flag_bits() == old(self).flag_bits(),
    {
        if self.evt >= 0 {
            let fd = self.evt;
            self.evt = -1;
            Some(fd)
        } else {
            None
        }
    }
}

} // verus!
