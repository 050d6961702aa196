# mqttrust

The verified core of a lightweight MQTT client for embedded systems, and the
tasks, sockets and timers around it.

- `src/` is the library. Its public functions carry contracts that Verus proves,
  but for what the calls into other crates do (see below).
  - `encoding`: the packets of MQTT 5 and 3.1.1, their properties and reason
    codes, encoded and decoded. Decoding gives back what encoding wrote
    (`law_round_trip` and the like).
  - `pubsub`: a queue of frames of variable length in one buffer, with one
    publisher and several subscribers. `pubsub::laws` states what holds over
    more than one call: no two frames overlap, and what is committed is what
    every subscriber reads.
  - `packet`, `message`: packets as they come in over a stream, and
    publications as views of a frame.
  - `stack`, `state`: the protocol engine, as a function from what has happened
    to what is to be done, and the session that it keeps.
  - `topic_filter`: topic filters with wildcards.
  - `eventloop`, `options`, `requests`: the decisions of an event loop for
    MQTT 3.1.1 that never blocks.
  - `clients`, `exp`, `transport`, `time`, `config`, `crate_config`,
    `collections`, `error`: smaller parts.
- `app/` drives the library: it awaits sockets, timers and channels, hands what
  has happened to the library and does what the library decides.
- `tests/` runs the library with the outside crates that it calls.

What is not proved is what the calls into `heapless`, `mqttrs` and the standard
library do. Each of them stands in a function of its own, whose doc comment
names the call and says what its contract claims.
