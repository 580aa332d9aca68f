# jobowalls

`jobowalls` sets static and live wallpapers on Hyprland through one command: it
tells a picture from a video, picks the program that shows it (`swaybg`,
`hyprpaper` or `awww` for pictures, `mpvpaper` for videos), starts and stops
those programs, and remembers what runs where so that it only ever stops the
processes it started.

The library under `src/` holds the decisions of the command line and the
decisions the pickers make apart from drawing, each with a contract proved by
Verus:

- `media`, `orchestrator`: what kind a file is and which backend a plan uses;
- `backends`: the commands each wallpaper program is run with;
- `state`, `strmap`: the saved state (monitors, processes, collection progress);
- `flow`, `restore`, `cli`, `report`: the steps of `set` and `restore` (as step
  functions a runner drives), the processes each step may end, and the text
  each command prints;
- `collection`, `collections_store`, `theme_collections`: walking a folder of
  wallpapers, named collections, and Omarchy theme backgrounds;
- `monitors`, `json`: reading monitor names from `hyprctl` and `mpvpaper`;
- `shell`, `gui`: the decisions of the two pickers (folders, previews, the
  carousel and its card sizes, where the picker stands on the monitor, what each
  key does, the desktop-preview worker and its live and still previews, cache
  names, `ffmpeg` commands).

`app/` is the command line around it: argument parsing, the configuration and
state files, and running the programs the library's steps ask for. The two
picker windows (GTK and Tauri) are outside this crate, so the picker decisions
in `src/shell` and `src/gui.rs` have no caller in it; the drawing, the float-based
carousel animation and the threads and channels of the pickers are not part of
the library.

The tests under `tests/` exercise the same functions on concrete values.
