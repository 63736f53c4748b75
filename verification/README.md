# rclone_ui

A desktop file manager for [rclone](https://rclone.org) remotes: browse
remotes, copy, move and delete entries, add remotes, and install rclone
when it is missing.

The crate is split in two.

- `src/` is a library verified with Verus. It holds the rules of the
  program, each function with a contract:
  - `operations`: the argument lists handed to rclone for every operation,
    and the reading of rclone's answers (listings, version reports, remote
    configurations, dry runs, transfer summaries, set-up questions); the
    display of sizes; the order of a local directory listing.
  - `rclone_install`: which rclone to use, which release to download, the
    extraction of the executable from the release archive (read with the
    `zip` crate), and how a finished command's outcome is read.
  - `ui`: the window's state and how each action and each background result
    changes it, with the navigation, selection and task-list laws proved.
  - `text`: the character-level model of the `str` operations the parsers
    use.
- `app/` is the program around it: the egui window, the background threads
  that run rclone, JSON parsing with `serde_json`, downloads, and the file
  system.

Building the program in `app/` needs, besides the dependencies in
`Cargo.toml`, the `eframe` crate at version 0.27 (features `default_fonts`,
`glow` and `x11`), whose `egui` it draws with; `Cargo.toml` does not list it,
so the library and its tests build without it.
