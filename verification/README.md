# Bridge

Bridge shows the screen of one machine on another: the server captures a display,
encodes it and sends it in fragments; the client puts the frames together again and
shows them. Sound goes along, and keyboard and pointer go the other way.

`src/` is the library, written and verified with Verus. Every function states in
its contract what it returns; what holds across functions is proved in the public
proof functions whose names begin with `law_`.

| Module | What it holds |
| --- | --- |
| `types`, `error`, `text`, `bytes` | plain values, errors and their messages, text and byte strings |
| `wire`, `protocol`, `headers`, `control` | the encoding of packets and control messages |
| `framing`, `connection`, `transport`, `net` | streams, handshake, ports and addresses |
| `udp`, `fragments`, `delivery`, `reassembly` | frames in fragments, from sender to receiver |
| `tofu`, `discovery` | trust on first use, finding servers |
| `queue` | bounded queues between threads |
| `video` | capture, color conversion, encoder, displays |
| `audio` | capture, playback and synchronization |
| `input` | key codes, event taps, injection, the event codec |
| `session`, `client`, `diag` | what the server, the client and the diagnosis decide |

The library computes no floating-point numbers; where the protocol carries one, it
is held as its bits.

`app/` is the program around the library: arguments, sockets, devices, windows and
threads. It has three subcommands, `server`, `client` and `diag`. The client's
window needs macOS.

`tests/` runs the library on concrete values.

What the library takes on trust is marked `external_body` and says so: the integer
and string encodings of `bincode`, the digest of `sha2`, the digits of `hex`, the
channels of `crossbeam-channel`, and the clock.
