# appear_x_gateway

A gateway between an Appear X broadcast unit and its manager. It finds out what the unit and its
cards can do, polls them over JSON-RPC, tells the manager what it found and carries out the
manager's commands.

- `src/` is the library, written in Verus: the rules of the gateway with their contracts and
  proofs. It does no I/O. A call to the unit, a discovery and the conversation with the manager are
  state machines that say what to send next and take what came back.
- `app/` is the program around it: sockets, files, the clock of the tasks, and floating point,
  which the library only holds as bits.
- `tests/` runs the library on concrete values.

| Module | What it is about |
|---|---|
| `config`, `credentials` | settings and who the gateway is |
| `appear_x::jsonrpc` | calls to the unit and its sessions |
| `appear_x::discovery`, `capabilities`, `probe_registry` | what the unit can do |
| `appear_x::polling`, `state`, `health` | polls, the state they keep, events on its changes |
| `appear_x::reachability`, `startup` | whether the unit answers |
| `appear_x::commands` | what the manager commands |
| `event`, `event_gate` | events and the limit on them |
| `ws` | messages, reconnection, certificates and SHA-256 |
| `probe`, `upgrade` | the report of the `probe` command; releases |
| `json`, `double`, `text`, `slots`, `clock` | values, texts, tables by slot, time |
