# OpenRok

OpenRok exposes a local HTTP service through a relay server. This crate is its verified core:
what the relay and the client decide and compute, written in Verus with contracts that are
proved.

## Layout

- `src/`: the library.
  - `protocol`: the messages of the control channel, and the form in which bodies travel.
  - `subdomain`, `urls`, `headers`, `http_rules`: names, paths, URLs and HTTP headers.
  - `books`: the model of the relay's books, with the laws that they keep.
  - `tunnel_manager`: reservations, live tunnels and requests that wait for an answer.
  - `rate_limiter`: how often a client may ask for a tunnel.
  - `relay`: the relay's answers to the public.
  - `connection`: the relay's end of a control channel.
  - `client`: the client's end of a control channel, and its requests to the local service.
  - `table`, `text`, `token`, `clock`, `channel`: what the others are built of.
- `tests/`: tests of the library.
- `app/`: the two programs around it, with their sockets, timers, JSON and logging.

## Flow

1. The client asks the relay for a tunnel.
2. The relay reserves a subdomain and returns a registration token.
3. The client opens a control channel and claims the tunnel with the token.
4. The relay leads public requests, by the host that they name, to the client, which passes them
   on to `http://127.0.0.1:<port>` and sends the answers back.

## What is taken on trust

The calls into other crates stand behind small functions marked `external_body`, or behind
`assume_specification`; the comment above each names the function that it calls and says what is
claimed of it. Time and chance are never predicted: a function that reads the clock says what
holds at a time that its clock may give, and has a companion that takes the time
as an argument. A token is said to be one that a draw may give. Every message to a client
is noted in the books, so that a contract says what is sent and what is not.
