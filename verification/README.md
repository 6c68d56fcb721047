# arb

A bot that follows the prices of perpetual futures on MEXC and Binance, keeps
statistics of the spreads between the two, books the account's deals and serves a
dashboard.

- `src/` is the library: what the messages of the exchanges do to the state, the
  statistics, the dashboard's contents and the life of a connection, stated in contracts
  and proved with Verus. Prices are IEEE doubles; the library carries and compares them
  as bit patterns (`src/double.rs`), and does no arithmetic with them. Deciding when to
  trade, placing orders and watching an open position are not part of this crate.
- `app/` is the program around it: sockets, files, the web server, the clock of the
  tasks, and the floating-point formulas: spreads, averages, sums of profit and the
  rounding of prices to the steps of a book.
- `tests/` runs the library with the real crates underneath.

| module | what it holds |
| --- | --- |
| `double`, `text`, `table`, `json` | numbers, texts, tables over `DashMap`, JSON |
| `config`, `naming` | the instruments, and the names of symbols on MEXC |
| `state` | prices, order books, trades, counters |
| `feed`, `mexc`, `binance` | what each message of a feed does to the state |
| `session`, `proxy` | connections: events, waits, the way through an HTTP proxy |
| `spread_tracker` | histograms and events of spreads |
| `web` | what the dashboard shows, and the news it is told |
| `scan`, `speedtest` | a scan of tokens, and a summary of response times |
| `run` | what holds over a whole run |
