# optic_mart

The verified core of the Optic Mart services, an event-sourced set of
command services (users, frames, orders) that write events to an event store
and query services that project those events into read stores.

`src/` is the library, checked by Verus:

- `text`: token and list-column string handling (replace, trim, split, join)
  with the round-trip laws of comma-joined columns.
- `auth`: the bearer token of an `Authorization` header.
- `pattern`, `password`, `ids`: field patterns (through `regex`), password
  hashing (through `bcrypt`) and fresh ids (through `uuid`).
- `frame_command`, `order_command`, `user_command`: validation of requests,
  the event bodies they become, and the decisions of each handler.
- `frame_query`, `order_query`, `user_query`, `projection`: what each event
  does to a read store, the rows read back, and the bookkeeping of what has
  been projected.

`app/` runs the services: HTTP handlers, database access, JSON and tokens.
Start a service by name, e.g. `optic-mart user-query`.
