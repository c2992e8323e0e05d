# penpal

Length-prefixed message exchange between two correspondents.

Every message travels as a frame: a four-byte little-endian length header, followed by
postcard's encoding of an optional message, where the absent message is the farewell.

- `src/` is the verified library: the wire format (`frame`), the filling of receive buffers
  (`progress`), the decisions of the post office, collection boxes, mailbox and mailman
  (`delivery`), the errors (`error`) and the transport pair (`transport`).
- `app/` runs the threads, channels and transports that act on those decisions: the
  collection box and its post office thread, the mailbox, and correspondences.
- `tests/` exercises the library on concrete values.
