# termhost

termhost keeps Windows terminals in a process of their own, `pty-host`, so that
they outlive the daemon and every window on them. This crate holds what the
programs around that process decide and compute, written in Verus and proved.

- `src/` is the library. Each module's head says what it is about; the public
  proof functions state what holds of it as a whole, for example that restoring
  the console undoes whatever the switch to raw mode did, or that a relay loses
  no byte and writes only whole characters.
- `tests/` runs it on examples.
- `app/` holds the programs: system calls, pipes, threads and printing. It is
  built in the workspace that holds the protocol crates `termhost_shared` and
  `termhostd`, from which `app/wire.rs` takes the frames.

The library trusts one thing that it does not prove: what the system clock says.
