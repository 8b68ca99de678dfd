# brazen

The policy, parsing and state logic of the Brazen browser shell, written in
Verus: every function under `src/` carries a contract that Verus proves.

## Layout

- `src/` — the verified library.
  - `text`, `assoc`, `numbers`, `urls`: characters, association lists,
    decimal and hex text, URL parts (through the `url` crate).
  - `config`, `config_merge`, `bootstrap`: configuration values, how a file's
    values overlay the defaults, and how start-up resolves its options.
  - `permissions`: capability decisions with per-domain overrides.
  - `navigation`: what the address bar turns into a URL.
  - `mounts`: virtual resource mounts and the paths they resolve to.
  - `cache`, `cache_gc`, `cli_cache`: the asset cache (capture policy,
    queries, pins, import, garbage collection) and its command line.
  - `automation`, `transfer`: admission of automation requests, approvals,
    rate limits, subscriptions, and the bytes handed over (screenshots,
    file bodies).
  - `cli_introspect`: the grammar of the introspection command line.
  - `engine`, `rendering`: engine-facing value types, pixel repacking and
    frame checksums.
  - `extraction`: entities read from a page (through the `scraper` crate).
  - `shell`, `shell_sync`, `shortcuts`: the shell's commands and panels, how
    its state follows the engine (visits, network log, crash recovery,
    render watch, new windows), and keyboard shortcuts.
  - `profile_store`: what the profile database's rows mean.
- `app/` — ordinary Rust around the library: files, the profile database,
  the configuration file, the cache store on disk and its command line.
- `tests/` — tests of the library.
