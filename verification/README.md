# sqlite_wasm_wasi

A SQLite access library with a better-sqlite3 style API, written in Verus.

- `src/manager.rs` — the table of live database and statement handles
  (`Manager`), its model `ManagerView`, and the laws of the table
  (fresh handles, consistency, release and close).
- `src/client.rs` — `open`, `Database` (`exec`, `prepare`, `transaction`,
  `close`) and `Statement` (`run`, `one`, `all`, `release`).
- `src/row.rs` — result rows as maps from column name to value, kept in
  name order.
- `src/value.rs` — `Value`, the `ToParam` trait and parameter conversion.
- `src/error.rs` — `Error` and its messages.
- `src/text.rs` — decimal rendering and the code-point order of text.
- `src/engine.rs` — the calls into `rusqlite`, each behind a small trusted
  wrapper.
- `app/main.rs` — a command-line self-test and example program.

`Statement::one` and `Statement::all` take the statement's column names
from the caller: the engine panics when asked for a column name that is
not UTF-8, so the names are read outside the library (see
`column_names` in `app/main.rs`, which uses `Manager::statement_source`).

Reals travel through the library as the bit pattern of their double
(`f64::to_bits`), e.g. `Value::Real(3.25f64.to_bits())`.

Every command that `exec` runs on a live database is recorded in the model
of the `Manager` (`ManagerView::executed`), with whether it succeeded; the
contract of `Database::transaction` states over that record that
BEGIN goes first, that the body runs only after BEGIN was accepted, and
that COMMIT follows a successful body and ROLLBACK a failed one.  The body
of a transaction receives the `Manager` (shared) to run statements on.
