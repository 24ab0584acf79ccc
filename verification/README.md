# aw_sync

Synchronisation of devices in a local network: finding them, pairing with them, sealing what
they exchange, and keeping track of what was exchanged. The library in `src/` is verified with
[Verus](https://github.com/verus-lang/verus); `app/` is the program around it.

## Layout

- `src/crypto.rs`: the shared secrets, envelopes with a time window and a table of nonces
  against replays, safety codes, and hashed aliases.
- `src/machine_uid.rs`: the fingerprint of an installation.
- `src/discovery.rs`, `src/mdns.rs`, `src/address.rs`: announcements by broadcast and over
  multicast DNS, which of the two counts, and the steps of the loops that send and hear them.
- `src/storage.rs` and `src/storage/`: the tables, as sequences of rows, with one module for
  each: devices, secrets and aliases, pairing codes, the log, the settings, the recycle bin and
  conflicts, statistics. `identity.rs` holds the laws on devices.
- `src/manager.rs` and `src/manager/`: what the interfaces and the background loops ask for:
  pairing, bodies of snapshots, merging, the local address, and the decisions of the loops.
- `src/endpoints.rs`: what the HTTP interface does with requests.
- `src/outside.rs`: the calls into other crates, with the contracts that are taken as given.
- `src/text.rs`, `src/stamps.rs`, `src/models.rs`: texts, tables of stamps, and records.
- `app/`: the database file, sockets, threads, the multicast DNS daemon and the HTTP routes.

## How contracts are written

Every record has a view: a struct of sequences, maps and numbers. A function that changes the
state says what the view is afterwards, by a spec function of the view before. A function that
reads the clock comes in two forms. The one whose name ends in `_at` takes the time and has an
exact contract; the other reads the clock and states the same for some time. Functions whose
names begin with `law_` state what holds of several operations together.
