# dora_nodes

Supervision of the nodes of a dataflow, with contracts that Verus proves.

- `src/` is the verified library. `supervisor` is the restart loop of a node as a state machine,
  `supervisor_laws` states what holds of all its runs, and `restart_limit` is the rate limit on
  restarts. `spawn`, `output`, `recent`, `sample` and `log_message` are about the process of a node
  and its output. `command`, `control` and `wait` are the node commands of the command line program.
- `app/` is the input and output around it: processes, files, channels, the command line and the
  connection to the coordinator.
- `tests/` runs the library.

The library performs no input or output. It takes in what happened, one event at a time, and returns
what is to be done next.
