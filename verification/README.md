# p2p_network

A peer-to-peer node on libp2p whose decision logic is verified with Verus.

- `src/` is the verified library: stream headers and framing, the state of
  paired streams, the pairing of substreams that arrive one by one, proofs of
  representation, mutual authentication by those proofs, the simple
  credential authentication, the bootstrap server's route cache, and the
  node's state machine, which turns commands and swarm reports into the next
  state and the actions to carry out. Calls into libp2p and byteorder stand
  behind small trusted wrappers whose contracts say what the crates do.
- `tests/` runs the library on concrete values.
- `app/` is the program around the library: the libp2p behaviours and
  connection handlers, the event loop, the asynchronous stream I/O, the
  command-line node, and the echo client and server. It hands the library
  plain values and carries out what the library decides.
