# fabric_backends

The backends of an egress session. A session names logical resources; the operator's table says
what each name stands for and which tenant may use it. The library resolves a session's names,
routes its calls to the backends behind them, and gathers what the calls recorded.

- `src/` is the library, verified with Verus: `resources` (the table, resolution, the
  statement-timeout ceiling), `backendset` (routing and metrics), `slots` (connect-once backends),
  `steps` (what a call asks for next), `payload` (unpacking), `wire` (what a session sends and is
  told), `names` and `name_map` (name order and the map kept in it), `laws` (what holds of sessions
  as a whole).
- `app/` is ordinary Rust around it: JSON decoding and a session over live drivers.
- `tests/` exercises the library on concrete values.
