# matapan

A monthly net-worth tracker for people whose money lives in several countries
and currencies: bank and broker exports are imported into one database of
accounts, instruments, positions and transactions, monthly files are checked
and rolled over, and a dashboard is computed from them.

The library (`src/`) is verified with Verus. Every importer, the database
tools and the bookkeeping of the dashboard are verified functions whose
contracts state their results exactly; calls into outside crates (csv,
chrono, sha2, hex, encoding_rs, html-escape, regex, url) sit behind small
trusted wrappers whose contracts say what those crates document.

- `ibkr`, `revolut`, `alipay`, `ccb`, `carpay`, `seb`, `intesa`: the bank and
  broker importers, from cells or records to transactions, instruments and
  positions.
- `general`: the importer for any CSV or workbook, which unfolds the input
  and checks and completes what the local model proposes.
- `cli`: validation of a monthly file and the month rollover.
- `dashboard`: which files are months, their order, the category of each
  entry and the months of each year.
- `rules`: the rules kept in the database file and what each request does to
  them.
- `ai_client`: the local model client's configuration and the refusal of any
  non-local server.
- `text`, `dates`, `money`, `records`, `hashing`, `encoding`, `csvtext`,
  `idset`: the shared vocabulary.

Amounts are floating-point numbers: the library never looks inside one. The
program in `app/` reads files, parses numbers, sums balances for the
dashboard, talks to the local model over HTTP, and hands plain values to the
library.
