# silicon_agent

The core of a desktop agent, written in Verus: every function under `src/` carries a
contract that Verus proves, and the laws that tie functions together are proof functions
named `law_*`.

## Layout

- `src/session/` — the per-session task queue (enqueue, settle, drain), permission modes,
  reading the message feed (dangling tool calls, dispatch rounds, collect summaries,
  compaction), and what the session store accepts before it writes.
- `src/run/` — the decisions of the run coordinator: how a run ended, what follows the end
  of a child, retries, serial dispatch of children, collects, and the reconciliation of
  sessions left behind by a crash or a stop.
- `src/scheduler/` — schedules of timed tasks (cron, daily, interval), start-up catch-up and
  the bookkeeping of an execution. Cron evaluation is done by the `cron` and `chrono`
  crates behind trusted wrappers.
- `src/remote/` — remote channels (Telegram, WeChat, DingTalk, Feishu): reading their
  answers, framing, message segmentation and rendering of pending interactions, routing of
  inbound messages, pairing, and the rules of the channel settings.
- `src/skill/`, `src/team/` — skill frontmatter, skill and team package metadata, install
  plans and previews.
- `src/json.rs`, `src/text.rs`, `src/clock.rs` — the JSON value the library reads, verified
  string helpers, and wall-clock readings.
- `app/` — plain Rust around the library: files and archives on disk, JSON text, protobuf
  frames and the network loops of the channels. What it reads is handed to the library,
  which decides; what stays there is I/O (retrying a dropped connection, confining a path
  with the file system, the platform's notion of an absolute path).
- `tests/` — tests run against the compiled library with the real outside crates.
