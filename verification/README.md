# Rusty Valve

A forwarder and transparent reverse proxy. It finds the host of a connection by looking at the TLS
server name or at the `Host` header of HTTP, and hands the connection to a load balancer that
connects it to the least loaded machine.

`src/` is the verified library: reading the configuration, finding the host, choosing destinations
and machines, and the bookkeeping of listeners, services and tasks. `app/` is the program around
it: arguments, files, sockets and tasks. `tests/` runs the library.

| module | what it holds |
| --- | --- |
| `text`, `text_map` | splitting, trimming, numbers, and maps keyed by text |
| `addr` | addresses, how they are read and written |
| `connection` | destinations and connections |
| `config` | configuration files and what they say |
| `listeners` | the sockets to bind, and finding the host of a connection |
| `services` | the table of services, the load balancer, the tarpit and the gatekeeper |
| `server` | the server and the states of its listeners |
| `utils` | the log, the tracking of tasks and interrupts |
