use vstd::prelude::*;

verus! {

/// The handle is ready for reading.
pub const READ_EVENT: u32 = 0x1;
/// The handle is ready for writing.
pub const WRITE_EVENT: u32 = 0x2;
/// An error condition is pending on the handle.
pub const ERROR_EVENT: u32 = 0x4;
/// Edge-triggered notification.
pub const ET_TRIGGER: u32 = 0x80;
/// The value that stands for "no handle".
pub const INVALID_EVENT_HANDLE: u64 = 0xffffffffffffffff;
/// An event stays signalled after it is observed.
pub const EVENT_NO_AUTO_RESET: u32 = 0x1;

} // verus!
