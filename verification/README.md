# s2n_quic_sync

Building blocks of a QUIC endpoint, written in Verus and proved against their
contracts: a bounded stack that overwrites its oldest element and the LIFO
channel on top of it, an MPSC queue and a pool of stream chunks, a bump
allocator with generation checks, maps from connection ids to connections,
the classification and routing of coalesced QUIC packets, the flow control
of a receiving stream, the accept queue of a server, the decisions of a
runtime timer and of the socket tasks, the sizing of an XDP setup, and the
layout of a printed histogram.

Layout:

- `src/` is the verified library. Its functions carry `requires` / `ensures`
  contracts over mathematical models (`Seq`, `Map`, integers), and the
  public `law_*` / `lemma_*` proof functions state properties that relate
  several operations (for example, that a pop undoes a push, that giving back
  the last allocation restores the allocator, or that the Initial id maps stay
  each other's inverse).
- `tests/` runs the library on concrete values.
- `app/` is the runtime side: tokio timers and sockets, async queues,
  command-line options and the printing of histograms. It performs the I/O
  and the waiting; the decisions are taken by the library.

Connection ids are byte strings of up to 20 bytes, wider than any integer
type, so they cannot key a map by an integer form without losing ids. The
id maps keep their entries in a vector and compare ids by their bytes, which
lets their contracts speak of `Map` views exactly.
