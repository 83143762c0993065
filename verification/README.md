# lol_lcu

An assistant to the League of Legends client: it accepts matches, skips the honor vote,
looks at the players of a game, snipes champions from the bench, and keeps the client's
window and memory in order.

- `src/` is the library: every decision and computation, verified with Verus. `lcu` holds
  the requests to the client and what is made of the answers, `app` the reactions to the
  phases of a game, `win` what the overlay shows; `json` and `text` are what they stand on.
- `app/` is the program around it: HTTP, WebSocket, processes, windows, and the arithmetic
  on floating-point numbers. It performs the effects that the library returns.
- `tests/` run the library, with the outside crates that it calls.

For ratings, `app::prophet` says which statistics of which games count, and `app/` does
the arithmetic. JSON text is read with `serde_json` and logins are encoded with `base64`;
the contracts of these calls, and of changing the case of a text, are taken on trust and
stand at the functions that make them.
