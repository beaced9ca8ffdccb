# buzzoperator

A supervisor for bunches of backend service processes: it starts a
configured number of instances of each service on unix sockets or TCP
ports, restarts failed instances until a failure limit is exceeded within a
minute, runs health checks and an update script (to keep an NGINX upstream
block in step), and replaces the instances one by one when a new executable
appears (a rolling update).

## Layout

- `src/` is the library, verified with Verus. Each decision of the program
  is a function with a contract over a mathematical model of its state:
  - `state_machine`: the states of a bunch and their transitions;
  - `sockets`, `ports`: planning of unix socket paths and TCP ports;
  - `service_bunch`: failure accounting, restarts, termination and the
    steps of a rolling update, as a function from state and event to state
    and work to do;
  - `bunch_controller`: what a command or a report of a bunch leads to;
  - `nginx`: rewriting of an upstream block (the regular expression that
    finds it is the `regex` crate's);
  - `connect_addr`, `paths`, `text`, `configuration`, `service_unit`,
    `message`, `error`, `cli`: addresses and their texts, path comparison,
    numerals, configuration and command lines.
  Public proof functions state the properties that hold across calls.
- `app/` is the program around it: command line, configuration files,
  processes, channels, timers, the filesystem watcher and the NGINX update
  commands. It asks the library what to do and does it.
- `tests/` runs the library on concrete values.
