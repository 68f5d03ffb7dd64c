# MCP gateway

An HTTP gateway for Model Context Protocol servers. It routes MCP requests to
stdio servers, which it runs as child processes, and to remote HTTP servers,
behind a single authenticated entry point.

`src/` is the library: the rules of the gateway, with contracts that Verus
proves. It neither reads files nor opens connections. Where a rule needs
something of the outside world, a function takes what came back as an argument
and says what has to be done next.

- Configuration: `server`, `authentication`, `interpolate`, `config`, `load`
- Credentials: `secret`, `chain`, `oauth`, `resolver`, `references`
- Inbound tokens: `discovery`, `jwks`, `jwt`, `introspection`, `validator`,
  `claims`, `strategy`, `trust`, `digest`, `setup`
- Answers to requests: `middleware`, `challenge`, `authorise`, `metadata`, `cors`
- Child processes: `json`, `handshake`, `connection`, `bridge`
- The command: `serve`, `reload`, `console`, `memory`, `crypto`
- Foundations: `text`, `names`, `order`

Durations and monotonic times are nanoseconds in `u128`; times of day are
seconds since the Unix epoch. Calls into other crates stand in small functions
whose doc comments say what is taken for granted of them.

`app/` is the program around the library: files, sockets, processes, signals
and the command line. `tests/` exercises the library.
