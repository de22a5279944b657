# sallyport_accept4

Staging of the `accept4` system call into a block of memory shared with a
host, verified with Verus.

- `src/block.rs`: the bump allocator that lays out a call's arguments in the block;
  it never hands out offset 0, which stands for an absent pointer.
- `src/sockaddr.rs`: the socket-address output (buffer and length): staging,
  writing the inputs into the block, collecting the results back.
- `src/accept4.rs`: the `accept4` call: its argument vector and the collection
  of its result.
- `src/sys.rs`: the two values taken from the libc crate.
- `app/`: conversions between `libc::sockaddr` and the library's buffers.
