# evtcall

An event-driven framework for Linux: an epoll main loop with handle and
timer callbacks, eventfd-based events and channels, non-blocking TCP sockets
and worker threads that report their exit through events.

Layout:

- `src/` — the verified library. Every decision of the framework lives here
  with its contract: the event loop's registry (`mainloop`), remaining-time
  arithmetic with tick wrap-around (`timeop`), the state machines of event
  handles (`eventfd`) and sockets (`sockhdl`), thread join decisions and the
  return-value stack (`thread`), deferred calls (`defer`), and the ring
  buffer, write queue and watch planning of the chat sample (`chatbuf`).
- `app/` — the system-call glue: epoll, eventfd, `select`, sockets,
  threads, signals, and the chat and timer samples. It performs each call and
  hands the result to the library, which decides what happens next.
- `tests/` — tests of the library on concrete values.
