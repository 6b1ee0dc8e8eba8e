# dsh-launcher, verified

The decision logic of a one-click launcher for the DeepSeek Harness web UI on
Windows, with its contracts proved by Verus.

- `src/` is the library:
  - `text.rs`: characters, whitespace, trimming, substring search, words,
    lines, UTF-16 for Win32 calls;
  - `number.rs`: decimal numerals, written and read back;
  - `config.rs`: the configuration file format, its defaults and the
    environment overrides;
  - `url.rs`: finding the tokenized launch URL in the server's output, the
    loopback URLs, and the readiness probe's HTTP request and status line;
  - `paths.rs`: where the launcher keeps its files;
  - `attempts.rs`: the fallback chain of launch commands and process arguments;
  - `browser.rs`: locating Chrome and opening an isolated window;
  - `launcher.rs`: the state machine that takes every decision of a run, with
    its invariant and laws.
- `app/` is the Windows program that performs the I/O the state machine asks
  for: environment, files, sockets, processes, job objects, message boxes.
- `tests/` runs the library on concrete inputs, including the launcher's
  three regression scenarios (a free port, a token-protected service on the
  port, a token-less service on the port).
