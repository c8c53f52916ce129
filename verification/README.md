# soulseek_rs_tui

The logic of a Soulseek command-line client and terminal interface, written
in Verus: the command line's meaning, the settings file and how it layers
over flags and defaults, the wishlist, the daemon's wire protocol and token
rules, search ranking and filtering, the browse tree, room and chat state,
the text and JSON record formats, shell-completion and skill installation
plans, NAT-PMP packets and the router's routing table, and the saved state
that a restart brings back. Every function in `src/` carries a contract that
Verus proves, except a dozen small trusted wrappers around single calls into
std, `getrandom` and `directories` (marked `#[verifier::external_body]`),
whose contracts state only what those libraries document; the laws that tie functions together (what a read gives back
of a write, what a restore then a capture keeps) stand there as public proof
functions.

Layout:

- `src/` — the verified library, one module per concern.
- `tests/` — tests that run the library's functions on concrete values.
- `app/` — the program around it: argument parsing with `clap`, the
  settings file with `serde`/`toml`, the file system, and the network probe
  of the router (UPnP-IGD through `igd-next`, NAT-PMP over UDP). It hands
  the library plain values and prints what comes back.
