# swtrust

A software TPM as a Verus library: the commands, the state they work on, the
cryptography under them, the wire protocols in front of them and the operator
console, each with a contract that Verus proves.

- `src/tpm/commands/` holds the commands: how a request is read, authorized,
  run and answered, one module for each group.
- `src/tpm/engine/` holds the state: hierarchies, objects, sessions, PCRs, NV
  storage, startup and shutdown.
- `src/tpm/crypto/` holds the algorithms, and proofs that decrypting undoes
  encrypting for AES and, with prime factors, for RSA, and that signatures verify
  and shared points agree on a curve that is a group.
- `src/tpm/structures/` holds the structures and their octets.
- `src/tpm/machine.rs` joins a TPM with the platform it is part of.
- `src/server/` holds the protocols of the transports over the `Device` trait.
- `src/console/`, `src/cli.rs` and `src/logging.rs` hold the console, the
  command line and the log records.
- `tests/` runs the library on concrete values.
- `app/` is the program around the library: sockets, pipes, threads and files.

What every operation promises stands in its `ensures`; what holds across
operations stands in public proof functions whose names start with `law_`.
