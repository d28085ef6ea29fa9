# shamash

Shamash monitors an Internet connection: it pings outside targets in a
round-robin manner, tells an outage of the router (local) from one beyond it
(ISP), keeps a log of each incident and saves it once the connection is back.

- `src/` is the verified library (Verus): the configuration and target
  rotation (`config`), the incident log (`log`), what a ping reply means for
  the log (`probe`), the monitor's state machine with one step function per
  connection state and the properties every step keeps (`states`), the
  per-adapter traffic bookkeeping (`traffic`) and reading the received
  counter out of an adapter's IPv6 statistics file (`snmp`).
- `app/` is the program around it: signals, the configuration file and the
  environment, running `ping`, sleeping, the clock and writing files. It
  runs each round by asking the library for the next ping until the round
  ends, then does what the end of the round asks for.
- `tests/` exercises the library on concrete values.
