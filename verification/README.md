# api

The ordering back end of a hashimaki stall, with its logic verified by Verus.

- `src/` is the verified library: the model (identifiers, price tables, orders,
  payments), taking an order (`ordering`), the rows the data is stored as
  (`rows`), and the live boards (`live`): which events refresh which board, what
  a refresh sends, and how a board's WebSocket connection reacts to events.
- `app/` is the HTTP server around it: axum routes, the PostgreSQL repository
  (sea-orm and sqlx), configuration, and the JSON shapes of the API.
- `tests/` runs the library on concrete values.
