# tidysync

Moves files out of a Syncthing folder once Syncthing has finished syncing
them, using the Syncthing REST API. Runs as a foreground CLI or as a system
tray application.

The decisions behind the tool are a library verified with Verus (`src/`);
`app/` is the program around it: the command line, HTTP, files, the lock,
logging and the tray.

- `src/apikey.rs` — which API key wins: `--api-key`/`SYNCTHING_API_KEY`, then
  `~/.env`, then the key in Syncthing's `config.xml`, read out of the XML.
- `src/client.rs` — the request URLs, and the watch session as a state
  machine: fetch devices and folders, sweep the source folder, seed the event
  cursor, long-poll for events with back-off, and move each file that
  finished syncing in the watched folder.
- `src/watcher.rs` — the status a UI shows, and the supervisor that pauses,
  resumes and restarts sessions.
- `src/mover.rs` — which paths are never moved, where a file goes, and the
  pre-scan sweep as a state machine.
- `src/lockfile.rs` — the pid text of the lock file and reading it back.
- `src/config.rs` — the configuration and the first-run setup's decisions.
- `src/tray.rs` — the tray menu's labels, what to redraw, and the icon pixels.
- `src/text.rs` — character-level helpers: trimming, searching, decimals.

Each module states its contracts over `Seq<char>` views; the `law_*` proof
functions state properties that span several calls.
