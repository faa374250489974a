# shunt: Antigravity accounts

Named Antigravity subscription accounts, and the quota that each has left.

- `src/` is the library, verified by Verus. It computes on plain values.
  - `store`: where account files lie, what a stored login holds, which accounts
    a directory listing has.
  - `usage`: the quota call, and what its answer says.
  - `shared`: account names and the files that carry them.
  - `json`: JSON documents, read and written by `serde_json`.
  - `text`: white space, trimming and order.
- `tests/` runs the library on concrete values.
- `app/` reads the environment, lists and writes files, and sends the call.

The trusted items are the functions marked `external_body` in `src/json.rs` and
`src/usage.rs`; each says in its comment what it claims of the crate it calls.
