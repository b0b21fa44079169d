# freezer_rs

An Android process freezer: it watches which apps are on screen and freezes
the processes of background apps through the cgroup freezer (v1 or v2) or
`SIGSTOP`.

- `src/` is the verified library. It reads the output of
  `cmd package list packages -U`, `/data/system/packages.list` and
  `cmd activity stack list`, keeps the uids waiting to be frozen, chooses the
  freeze mechanism from the cgroup files present, and plans the writes to
  cgroup files. Each function states what it returns in its `ensures`; the
  `law_*` proof functions state properties that hold across calls.
  - `text`: lines, whitespace, substrings and decimal numbers.
  - `table`: the package-name tables and name sets.
  - `pattern`: regular-expression captures (through the `regex` crate).
  - `freeze`: the daemon (packages, activity stack, pending uids, mode).
  - `freezer`: the per-uid cgroup freezer and its write plans.
  - `mounts`, `socket`, `logger`, `task`: cgroup paths, the Xposed channel,
    the build description and the build helper's commands.
- `app/` runs commands, reads files and `/proc`, watches `/dev/input` with
  inotify, parses `freezer.toml`, writes the cgroup files, and holds the
  build helper's command line.
- `tests/` exercises the library on concrete inputs.
