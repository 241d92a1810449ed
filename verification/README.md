# freemdu_home

The logic of an optical diagnostic adapter for household appliances and of its
desktop tool, written in Verus: executable Rust with contracts that are proved.

- `src/` is the library. It performs no input or output. Where something outside
  has to be asked (the optical line, the flash, a socket), the library hands out a
  request and takes the reply: `request()` says what is wanted, and `supply(reply)`
  says what comes next.
- `tests/` runs the library, on a model of a NOR flash where it needs one.
- `app/` performs the requests: the desktop tool, and the tasks of the firmware over
  the traits that a board implements.

| Module | What it holds |
| --- | --- |
| `keyscan` | the key-scan job, its flash records, the journal and what it recovers after a power loss, the partition migration, the scanner |
| `diagnostics` | the commands over TCP and USB, and the engine that executes them |
| `device` | properties and actions of appliances; the profile of software ID 498 |
| `optical`, `link` | the optical port, and the operations of the link over it |
| `header`, `ota`, `bridge`, `stream` | the services on the network |
| `monitor`, `publish` | what the tasks do next, and what is published over MQTT |
| `trace` | the memory trace of software ID 410 |
| `accelerometer` | vibration statistics and the sensor |
| `netlog`, `backlog`, `buffers` | the network log and bounded buffers |
| `known_read_keys` | the registry of read keys |
| `tui` | the desktop tool |
| `text` | numbers, words and fields of byte strings |

Two things are taken on trust: that `core::str::from_utf8` accepts exactly the valid
UTF-8 strings (`text`), and that the channels of `embassy_sync` are bounded
first-in-first-out queues (`backlog`).
