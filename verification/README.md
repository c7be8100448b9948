# mineshaft

Mineshaft lets Minecraft Bedrock players who are not on the same network see and join each other's
LAN worlds. This crate holds its logic, written in Rust and proved with Verus: what the packets are,
who may talk to whom, which datagram goes where, and what is told to the game and to the servers.

## Layout

- `src/` is the verified library. It holds no socket, file, clock or task: what was received, what
  time it is and how a command ended come in as arguments, and what is to be sent is handed back.
  - `server/`: the relay: the header in front of each datagram, the registry of peers, the relay
    itself.
  - `lan/`: the bridge on a player's machine: finding the local world, the tunnel to the relay, the
    worlds shown to the game, access control.
  - `node/`: discovery and signaling over a rendezvous server: framing, advertised servers, the
    server's registry, the client's decisions.
  - `platform/`: what the operating system says of ports and processes.
  - `text`, `bytes`, `maps`, `vec_map`, `addr`, `time`, `datagram`, `io_error`: what the others are
    built from.
- `app/` is the program around it: sockets, timers, files, commands, serialisation.
- `tests/` runs the library on concrete values.

Every public function states in its contract what it returns and what it changes. Laws that relate
several functions stand as public proof functions next to the types they speak of.

## What is trusted

A few functions of the standard library and of `byteorder` are called through items that Verus takes
at their word. Each has a doc comment that says what is claimed: in `text.rs`, `bytes.rs`,
`lan/packets.rs` and `platform/processes.rs`.
