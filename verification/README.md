# rhymuweb-client

A user agent for the Hypertext Transfer Protocol (HTTP) 1.1 whose decisions are
verified with [Verus](https://github.com/verus-lang/verus).

`src/` is the verified library.

* `client` begins a fetch: it finds the server for a request, sets the headers
  that a user agent is responsible for, and writes the bytes to send.
* `fetch` takes a fetch from one step to the next: using a connection that was
  kept, connecting, securing the connection, sending, receiving, starting over
  when a kept connection turns out to be closed, and deciding what becomes of
  the connection in the end.
* `request`, `response`, `headers`, `uri`, `connection`, `error` and `text` hold
  what these two work on.
* `laws` states what holds of the client as a whole.

The library does no input or output.  It calls
[`rhymuweb`](https://crates.io/crates/rhymuweb) and
[`rhymessage`](https://crates.io/crates/rhymessage) to write requests, to parse
responses and to undo content codings.  What it takes for granted about them
stands in the contracts of the functions marked `external_body` and in the
`assume_specification` items.

`app/` is the asynchronous client around the library.  It makes, secures, reads,
writes and keeps connections as the library tells it to.

`tests/` runs the library.
