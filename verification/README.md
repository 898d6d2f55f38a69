# uds — Unlimited Drive Storage

A command-line uploader that keeps files in Google Drive as base64 text
spread over Google Docs documents, below a root folder named `UDS root`.

- `src/` is the verified library (Verus):
  - `gapi.rs` — the Drive API requests as plain values, and the decision
    between finding and creating the root folder;
  - `file.rs` — what an upload sends: folder properties and documents of
    at most 1 000 000 base64 characters;
  - `token.rs` — the OAuth redirect: request target, `code` and `state`
    parameters, the state check, the answer page, the refresh decision;
  - `cli.rs` — the subcommand and the exit status;
  - `json.rs`, `codec.rs`, `text.rs` — JSON string quoting (serde_json),
    MD5 and base64 (md5, base64), decimal and hexadecimal numerals.
- `app/` runs it: command line (clap), HTTP (reqwest), OAuth (oauth2),
  files and sockets.
- `tests/` exercises the library on concrete values.
