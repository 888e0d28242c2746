# fuse_ring

A FUSE connection for Linux whose reads and writes go through a dedicated io_uring ring thread.

The library under `src/` makes the decisions and is verified with Verus. It performs no input or
output: it is told what happened and says what is to be done.

- `slot_table`, `lane`: the bounded tables of requests that wait for a completion
- `request`: requests, their layout for the kernel, and the tags of completions
- `ring`: what the ring thread does next, and who is answered what
- `ring_laws`: no request is lost or answered twice, and nobody is left waiting when the ring
  thread ends
- `connection`: what the calls on a connection return
- `setup`: how a connection comes about
- `error`, `text`: the errors and their messages
- `foreign`: what is taken from the `bytes` and `libc` crates and from the standard library
  without proof

`app/` carries the actions out: it opens the device, runs the mount helper, talks to the ring and
connects it to async callers.
