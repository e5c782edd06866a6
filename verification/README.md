# trusttrove

A verified library for invoice financing on a ledger.

- `src/contract.rs` is the invoice contract. Every call is answered as `src/model.rs` says, and
  `src/laws.rs` proves what follows for every sequence of the calls of `InvoiceCall`: identifiers
  are never reused, invoices keep their terms, statuses move only along the life of an invoice,
  nothing happens without the consent of those concerned. The laws do not speak of
  `write_settings`, by which an operator overwrites the settings outside these calls.
- `src/registry.rs` is the registry of the parties that may trade.
- `src/token.rs`, `src/pool.rs` and `src/mock_registry.rs` are small stand-ins for the contracts
  around it, and `src/fixture.rs` puts a trading place together from them.
- `src/invoice_id.rs` derives invoice identifiers. It holds the one trusted function of the
  library, a call of Soroban's SHA-256.
- `app/` offers the stand-ins as contracts on a Soroban host.
