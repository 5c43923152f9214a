//! Verified core of an event-driven framework: the bookkeeping of an event
//! loop (handles, timers, readiness, wait times), the states of event handles
//! and non-blocking TCP sockets, the decisions of worker threads, deferred
//! calls, and the buffers of a chat client and server built on them.
pub mod consts;
pub mod timeop;
pub mod defer;
pub mod mainloop;
pub mod eventfd;
pub mod sockhdl;
pub mod thread;
pub mod chatbuf;
