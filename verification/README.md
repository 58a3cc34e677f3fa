# Jackstay

Jackstay shares captured frames between processes of one machine and carries input back to their
source. A producer publishes into a bounded arena; consumers acquire frames without copying, hold
as many as they reserved, and give them back when their own use, including GPU work, is over.
Nothing is ever taken back by a deadline: storage that is still in use stays until its reader, or
proof of its reader's end, releases it.

The library is verified with [Verus](https://github.com/verus-lang/verus). Every function states
what it does over mathematical models, and the promises that span functions are proved as public
proof functions.

## Layout

`src/` is the verified library.

- `graph` decides the codec of an export from what both ends have in hardware, and mints tokens.
- `acquisition` is admission: holdings, incarnations, byte budgets and their replacement.
  - `arena` is the shared arena: mappings, claims, publication, acquisition, release, draining,
    waiting, replacement of storage, grants between processes. `arena/protocol` models the steps of
    acquisition and publication one by one, and `arena/runs` shows that the operations are made of
    them. The promises of the whole stand in `arena/laws`, `arena/turns` (what publication leaves
    of an acquisition that it overtakes), `arena/delivery` (ordered delivery from the first call to
    the last) and `arena/replacement` (what a replacement of the storage keeps).
  - `socket` is setup on one authorized connection.
- `input` is input: validation, sessions of one controller at a time, cleanup before reuse, and the
  two ends of its connection as step machines. `input/laws` holds its promises.
- `local` is Local Endpoints: names, addresses, trust in the other end, bounded exchanges, handle
  transfer.
- `bootstrap` offers input on the connection that media setup goes on with.
- `daemon` is the control API of a session host.
- `ffi` and `ffi_*` are the C boundary on plain values.
- `demo` holds what the example programs decide.
- `text`, `bytes`, `json`, `maps`, `totals`, `error` serve the others. `text` and `json` hold the
  few functions of the standard library and of serde_json whose contracts are believed.

`tests/` exercises the library through its public functions.

`app/` is the host side on Unix: sockets, shared mappings, descriptor passing, process watches,
worker threads, JSON and the C entry points. It performs what the library's steps ask for
and hands back what came of it. What it adds of its own are limits of the host: how often workers
look again, and how long publication waits for another process.

## Conventions

Time is a number of nanoseconds that the caller passes as `now`. Coordinates are the bits of their
binary64 value. Shared pages are plain values; the host loads and stores them around each step,
under a lock that every process of an arena takes. A process that is stopped inside the lock holds
the others up; the host's publication waits a bounded time and then drops its frame. Wakes are flags on the pages; the host turns
them into signals.
