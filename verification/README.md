# accord

The core of the Accord chat client, written in Verus: every function in
`src/` carries a contract that Verus proves, and the properties of the
client's own formats and state (log and file round trips, the friend outbox,
the sessions registry, call set-up) are stated and proved, as public proof
functions or in contracts. Where a property rests on the cryptography itself
(a signature verifying, a wrong key failing to open a blob, an MLS message
decrypting on the other side), it is not stated: the contracts speak of the
outside primitives' results by name, and each trusted wrapper says in its doc
comment what it claims of the outside call and what it leaves unsaid.

## Layout

- `src/` — the verified library.
  - Text and bytes: `text`, `bytes`, `bytes_chars`, `hex`, `strset`.
  - Keys and sealing: `identity`, `hashing`, `backup`, `at_rest`, `vault`,
    `device` (Ed25519, BLAKE3, Argon2id and XChaCha20-Poly1305 sit behind small
    trusted wrappers; what is built on them is verified).
  - Local state: `history` (the framed message log), `contacts`, `friends`
    (the friend-request outbox), `accounts`, `settings`, `sync_state`,
    `sessions` (the connected servers and the active one).
  - Networking decisions: `peers`, `mesh`, `taverns`, `hosting`, `messaging`
    (routing of pushed messages and the reconnect supervisor's steps), `dm`,
    `groups`, `dto`.
  - Calls: `voice` (offerer election, call roster, ICE candidate gating).
  - MLS: `mls` (message and error types) and `mls_engine` (one device's MLS
    state over OpenMLS).
- `tests/` — tests of the library on concrete values.
- `app/` — a command-line front end that owns files, the OS keyring and the
  clock, and hands the library plain values.
