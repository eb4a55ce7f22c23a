# tacit

A library for documents that several devices edit and that synchronise without a server. Its
logic is verified with Verus: what each function returns or changes is stated in its contract.

- `src/` is the library.
  - Identifiers, versions and time: `ids`, `frontier`, `hlc`, `clock`, `version`, `config`.
  - Documents: `loro_doc`, `converter`, `block_doc`, `block_record`, `meta_doc`, `block_cache`.
  - Keys and channels: `identity`, `signing`, `signature`, `digest`, `noise`, `secure_session`,
    `replay`, `pairing`, `secret_storage`.
  - Frames and messages: `frame`, `messages`, `codec`, `session`, `loopback`, `channel`.
  - What is stored: `dao`, `rows`, `peer_row`, `compression`, `snapshot_install`.
  - What a platform sees: `engine`, `runtime`, `doc_executor`, `command_bus`, `event_bus`,
    `event`, `listener`, `presence`, `telemetry`, `view`, `ble`, `foreign_storage`, `ffi_error`,
    `language`.
  - Shared: `error`, `model`, `json`, `text`, `text_map`, `octets`.
- `app/` connects the library to SQLite, to the key ring, to Tokio and to other languages, and
  is the program that generates bindings.
- `tests/` runs the library.

Public functions named `law_…` state what holds of several functions together.
