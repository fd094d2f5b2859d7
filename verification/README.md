# wings_rs

The decision logic of a game-server node daemon, written in Verus with
contracts that Verus proves.

- `src/` is the verified library: schedules (triggers, conditions, the run of
  actions, the zone and rounds of cron timers), the zfs backup driver's paths and records, backup directory
  listings, the diagnostics report, the retry and paging logic of the panel
  client, the read cursor of shared files, compression settings, and the
  decisions of the upload, upgrade and trigger routes. Each module keeps its
  laws as public proof functions beside the code.
- `tests/` runs the library on concrete values.
- `app/` holds the I/O around it: compression streams, timers and executors
  of schedules, the panel client, zfs commands and the diagnostics command.
