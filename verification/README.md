# msbe

A small TCP load balancer. The library (`src/`, verified with Verus) holds:

- `ioringbuffer`: the fixed-size circular byte buffer used per direction of a
  relayed connection, with its model (`RingState`). A fill never reaches the
  read position, so at most `SIZE - 1` bytes are held, and the proofs show
  that bytes leave in the order they came in, none lost or repeated, over
  any run of fills and drains;
- `relay`: the step-by-step decisions of a relayed connection;
- `balancer`: upstream/listening servers and the round-robin choice of
  upstream, with its fairness law;
- `config`, `nginx_config`: the conversion of a crossplane-JSON nginx
  configuration into the balancer configuration;
- `errors`: the error values.

`app/` is the program around it: command line, logging, reading and parsing
the configuration file, sockets, threads, and an echo server for trials
(run when the program is started under the name `echo_server`).
