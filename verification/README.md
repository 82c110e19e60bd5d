# remote_access

Remote desktop access by a 9-digit ID and a password, on top of Apollo (the
streaming host) and Moonlight (the streaming client).

The library in `src/` holds the rules of the service and proves them with Verus:

* `proto`, `crypto`, `identity`: messages, the password scheme, certificates
* `pairing`, `testing`, `handshake`: the five-step GameStream pairing, a simulated
  host, and what the two achieve together
* `xml`, `nesting`, `serverinfo`, `apps`, `http`: what GameStream servers are asked and answer
* `rendezvous`, `rendezvous_laws`: the ID server's store
* `host_config`, `perm`, `agent`, `agent_loop`, `agent_laws`, `apollo`: the host agent
* `client_config`, `session`, `session_laws`, `connect`, `moonlight`: the client
* `desk`, `setup`, `autostart`: the desktop app
* `fakehost`: a stand-in for Apollo
* `text`, `table`: strings and tables keyed by them
* `foreign`: the calls into other crates, with what is taken on trust of each

Files, sockets, processes, the clock and the window are in `app/`, one program
with the parts of the service as subcommands. The window needs `eframe` and
`arboard` besides the crates that `Cargo.toml` names.
