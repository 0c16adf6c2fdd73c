# kwikbooks

A small double-entry bookkeeping library for a single company, written in
Verus. The decisions of the application (journal balance, posting, document
lifecycles, reports, open receivables and payables, list import from
QuickBooks exports, log viewing and the support bundle) are executable
functions whose contracts Verus proves.

- `src/` — the verified library. Each module starts with a note on what it
  covers; public `law_*` proof functions state properties that hold across
  functions (balanced journals, the balance sheet equation, open balances that
  add up to what the posting rules put on the control accounts, and so on).
- `tests/` — tests that run the library on concrete books and files.
- `app/` — the SQLite-backed commands, file I/O and logging around the
  library. It reads what the library needs, calls it, and writes back what it
  decided.
