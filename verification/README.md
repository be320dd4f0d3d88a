# RDT, the remote desktop tool

RDT opens SSH terminals, SFTP transfers and RDP desktops from one program. It
keeps connection profiles, host keys, certificate pins and secrets, and writes
an audit trail in which secrets never appear.

The rules of the program are a library whose behaviour is stated in contracts
and proved with Verus. What touches the machine (sockets, files, processes,
windows) is ordinary Rust around it.

## Layout

- `src/` is the library.
  - Terminal: `parser`, `grid`, `term`, `term_laws`, `input`
  - SSH: `known_hosts`, `handler`, `ssh_agent`, `ssh_session`, `sftp`
  - RDP: `framebuffer`, `tls`, `clipboard`, `rdp_session`
  - Sessions: `proto`, `session`, `audit`, `agent`
  - Secrets: `secret`, `crypto`, `rng`, `vault`, `keystore`, `secrets`
  - Configuration: `settings`, `profile`, `migrate`, `store`
  - Logging: `redact`, `redact_writer`, `buffer`, `logging`
  - Platform: `paths`, `deps`, `info`, `service`
  - Front ends: `cli`, `ui`
  - Shared ground: `error`, `ids`, `timeutil`, `text`, `textmap`, `sort`, `json`
- `tests/` holds the tests, which run the library from outside.
- `app/` holds the program: `main`, the network and file work, the window.

## What is trusted

Calls into other crates stand behind small functions marked
`#[verifier::external_body]`. They live in `text`, `rng`, `timeutil`, `secret`,
`crypto`, `json`, `migrate` and `ssh_session`, and each says in its doc comment which function
it calls and what is claimed of it.
