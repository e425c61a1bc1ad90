# monero_wallet_backend

The coordinator of a Monero wallet: it sits between the wallet surfaces and the engine. It keeps
the wallet registry, follows the engine's jobs, turns sync and balances into events, normalises
history, and takes a send from build through review to broadcast. It holds no key material and
keeps no password.

Everything that is decided or computed stands in `src/`, with contracts that Verus proves:

- `text`, `json`, `ordered`: text and numerals, JSON values, a map in the order of its names
- `gate`: who may do what
- `model`: amounts, the registry, history, the send state machine
- `backend`: the state, the engine's jobs, the reactor's turn, sends, wallets, and the laws that
  hold of every state

JSON text is read and written by `serde_json`; `src/json.rs` names what is believed of it.

`app/` is the module around the library: it calls the other modules, reads the clock, keeps the two
files and runs the reactor thread.

Amounts are decimal strings of atomic units (1 XMR = 10^12). `format_xmr` and `parse_xmr` are exact,
and `parse_xmr` refuses more than twelve places rather than rounding. At most one send is in flight:
a built transaction reserves nothing, so a second build could spend the same outputs. A preview older
than 120 seconds expires and cannot be confirmed. The review governs broadcast, not signing: the engine signed when it built the
preview.
