# multiview_control

The control plane of a multiview appliance: who may do what, which commands
reach the engine, how a changed configuration file is applied, and how managed
devices are found, enrolled, polled and cast to.

- `src/` is the library. Its functions are verified with Verus, but for the few
  small ones named at the end, which call outside crates. Time, randomness and
  the outcome of I/O are arguments; what has to be done is part of the answer.
- `app/` is the ordinary Rust around it: sockets, files, timers, request
  handlers, and the wire forms of the library's types.
- `tests/` run the library on concrete values.

State machines carry the parts that alternate I/O and decisions. Each takes what
happened and answers what to do next:

| machine | event | answer |
| --- | --- | --- |
| `config_watch::Watcher` | a probe of the file, its content | effects, submissions |
| `devices::cast::session::CastSessionActor` | a frame, a timer, a command | dial, send, listen, pause |
| `devices::zowietek::poller::ZowietekPoller` | a reply, a command | post, wait, finished |

The laws of the library are the public proof functions named `law_*`. They are
stated over the same spec functions as the contracts.

What is not proved is what the outside crates compute: digests and signatures
(`crypto.rs`), JSON text (`json.rs`), the host of a URL
(`devices/zowietek/client.rs`) and quoted text (`text.rs`). Each of these is a
small function whose contract says what is believed of the outside function.
