# exotia_core

The backend of the ExotiaCore game network: an HTTP API for players and a
websocket on which game servers send commands.

- `src/` is the verified library (Verus). It holds the parsers and
  formatters of the texts the server exchanges (decimal integers, reward
  lists, `|`-separated keys, command lines), the routing of commands, the
  answers to them, the admission of requests, the sign-up steps, and the
  encryption of keys, each with its contract.
- `app/` is the server program around it: configuration file, database
  (SeaORM), game-server pings (craftping), HTTP (actix-web) and websocket.
- `tests/` runs the library on concrete values.
