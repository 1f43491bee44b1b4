# nirikit

Launch applications on niri workspaces without stealing focus, and run
reusable launch profiles from a config file.

## Layout

- `src/` is the library, verified with Verus:
  - `model.rs`: workspaces and windows as niri reports them, and how a
    workspace reference (ID, numeric index, name, optional output) resolves.
  - `profile.rs`: column placements, profiles and their per-window tables,
    merging command-line overrides into a profile, turning a profile into
    one launch per window, choosing the config file, and the message that
    lists where it was looked for.
  - `launch.rs`: the decisions of a launch: the plan taken at launch time,
    which new window is the launched one (app ID, process ancestry, the
    fallback for a lone new window), and the requests that place it.
  - `ipc.rs`: the state and events niri reports, collecting the initial
    state when the event stream opens, the JSON request lines sent to it,
    and what its replies and event lines mean (read with serde_json).
  - `table.rs`: a table kept in increasing order of name.
  - `text.rs`, `lists.rs`: decimal numbers, case folding, string order,
    searching and filtering sequences.
  - `cli.rs`: the arguments of the subcommands as plain data.
- `app/` is the program around it: the command-line grammar (clap), the
  config file (toml, serde), the socket to niri (serde_json), the spawned
  process and `/proc`.
- `tests/` exercises the library.
