# mibar

A status bar for the Hyprland compositor. The library (`src/`) holds the
parts of the bar that decide and compute, each with a contract that Verus
proves:

- `reactive`: keyed lists and the diff between two versions of one
  (removed, added and moved indexes), and applying a diff to the widgets
  that show the list;
- `hyprland`: the workspace list and event lines of the compositor's
  sockets, the keymap of a keyboard, keyboard layout codes, and the
  decisions of the event listener;
- `sys_info`, `monitor`: memory and processor figures read from `/proc`,
  and the subscriber count of a poller;
- `text`: byte-level scanning (substring search, decimal numbers as
  `str::parse` reads them, lines, whitespace);
- `image`, `image_widget`, `image_cache`, `asset_loader`, `loader_cache`:
  decoded images, resizing, the renderer's reference-counted image cache,
  and the cache policy of the image loading thread;
- `client`: the decisions of the loop that serves the windows' requests
  (which windows are served, when it stops, who hears of a new theme);
- `theme`, `color`, `widgets`, `workspaces`, `tray`, `pulse`, `window`,
  `ids`, `small_list`, `static_ptr`: text color overrides, button and
  workspace button behaviour, tray icons, PulseAudio sink decisions, the
  window registry and widget identifiers.

`app/` is the program around it: the sockets, files, threads and the
PulseAudio connection, and a text front end that prints the bar's content.
