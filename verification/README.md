# firecrab

The rules by which firecrab runs MicroVMs on a host, written in Rust and verified with Verus:
installing its services, turning container images into bootable disks, keeping kernels and
templates pinned, giving each VM's disk its identity, and keeping the VMs, their networks, disks
and scripts in a database.

## Layout

- `src/` is the library. Every function states what it does in `requires` and `ensures`, and
  Verus proves it. It touches neither files nor processes nor sockets.
- `app/` carries out on a real host what the library decides.
- `tests/` runs the library on file systems, command runners and databases in memory.

## How the library talks to a host

Small questions (is there a file, what does it hold) are asked through functions that the caller
hands in. Commands and the wait for the API go through traits that keep a history (`shell.rs`,
`service/probe.rs`). Longer work is a dialog: an operation is handed the answers so far and gives the next
question or its result (`dialog.rs`, `oci/provision.rs`), or it is a state that takes one event
after the other (`oci/kernel.rs`). Contracts speak of the whole dialog, so the order of the
questions is part of them.

Calls into other crates stand behind small wrappers: SHA-256 (`digest.rs`), zstd and tar
(`oci/archive.rs`), ids and JSON in rows of the database (`persistence/record.rs`), and header
values (`server.rs`). The doc comment of each says what is taken for granted of the call.

## What holds of the whole

Properties that span functions are public proof functions, next to what they are about or in a
file of their own. Some are stated over a model of the host: a tree of files (`oci/laws.rs`), the
files of the kernel cache (`oci/cache.rs`), the rows of the database (`persistence/tables.rs`).
Among them: a failed injection leaves the tree as it was, a second job for a kernel downloads
nothing, a pinned file opens exactly where its bytes have the pinned digest, a VM keeps no secret
of its template, what is written to the database is what is loaded, a failed transaction changes
no row, opening the database again changes nothing, and removing the services without a purge
keeps the data.
