# paper_client

A client for the PaperCache wire protocol, verified with Verus.

- `src/` is the verified library: how requests are encoded (through
  `paper_utils`'s sheet builder), how responses are read from the bytes
  received so far (through `paper_utils`'s stream reader), the error codes,
  addresses, policies (with the grammar of the numbers a 2Q policy
  carries), values and their text, status reports, and the decisions a
  connection makes (when to reconnect, when to give up, which pooled client
  comes next). Each public function states what it returns; the laws
  (`law_*` proof functions) state what holds across functions.
- `app/` holds what moves the bytes: the blocking and the `tokio` clients
  and their pools, and the user-facing types that carry floating-point
  numbers or `Display` messages.
- `tests/` runs the library on concrete values.
