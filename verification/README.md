# bytehub

A TCP relay with several remote peers, an optional obfuscation layer between two
relays, active health probes and a pool of connections made ahead of time. What the
relay decides and computes is a library that Verus verifies; reading, writing,
sleeping and dialling are left to the program around it.

## The library, `src/`

| module      | what it holds                                                      |
|-------------|--------------------------------------------------------------------|
| `rng`       | the pseudo-random generator behind the obfuscation prefix          |
| `cycle`     | why that generator comes by every state of a parity, ten at a time |
| `obfs`      | the prefix: its length code, its tag, making and reading it        |
| `handshake` | who sends and reads which prefix, in which order                   |
| `bidi_copy` | copying in both directions                                         |
| `plain`     | which way the bytes of a relay take                                |
| `probe`     | health probes: when to probe, what to report                       |
| `pool`      | idle connections of every peer, and keeping them at a minimum      |
| `timeout`   | timeouts in whole seconds                                          |
| `tcp`       | the peers of an endpoint, what is probed, the mode                 |
| `endpoint`  | addresses, options and their texts                                 |
| `conf`      | the configuration and the endpoint it describes                    |
| `text`      | numbers, lists and white space                                     |

Work that takes turns with the outside (`handshake`, `bidi_copy`, `plain`, `probe`
and the warming up in `pool`) is written as a function from a state and an event to
the next state and an action. The laws that relate several functions are public
proof functions at the end of their modules.

Two calls are trusted: the system clock in `rng`, of which nothing is claimed, and
`str::to_lowercase` in `text`.

## The program, `app/`

`main`, the command line, serde's view of the configuration, name resolution,
sockets and tasks. `app/transport.rs` needs kaminari, which takes a nightly compiler.
