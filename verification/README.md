# screentime_pro

The core of a desktop screen-time tracker, written in Verus: the
functions in `src/` carry contracts that the verifier proves.

- `src/` — the library. Application classification rules and the
  category dictionary, the foreground-session tracker (when a session
  ends, how it is cut at midnight, what gets recorded), settings records
  and their load/save round trips, merging exported histories, backup and
  log housekeeping and the once-recorded log identity, update checks,
  OCR text clean-up, engine choice and engine file search order, the
  connected regions of a text-detection mask, the Wikipedia search
  reply, metric parsing, the tray icon bitmap, and the decisions of the
  background loops.
- `tests/` — tests on concrete values, run against the compiled library.
- `app/` — a small command-line program around the library: it reads the
  system, the SQLite database and the network, and hands what it read to
  the library's functions. What it still decides itself is at the edge of
  the I/O: which interfaces the kernel flags mark as down, which candidate
  engine files exist, the local time zone, and the float arithmetic.

Outside crates are reached only through a few small trusted wrappers
(`regex`, `lru`, `sha2`, `base64`, `chrono`, `serde_json`), each with a
stated contract.
