# breadshot

Wayland screenshot utility for Hyprland: it selects a geometry (a region, a
window, a monitor, the focused window or the active monitor), captures it with
`grim`, copies it to the clipboard with `wl-copy`, and announces it with
`notify-send`.

The library under `src/` holds the decisions, with contracts checked by Verus:

- `text`: Unicode whitespace trimming, splitting at a character, decimal
  integers in both directions, joining.
- `paths`: joining Unix paths, `~` expansion, the configuration file's path.
- `config`: the configuration and its defaults.
- `geometry`: reading and writing `x,y wxh`, clipping a window's box to the
  monitor layout, the boxes offered for window selection, monitor and window
  geometries.
- `session`: the steps that settle a capture mode's geometry, as states,
  replies and actions.
- `capture`: required tools, the capture plan (directory, file name,
  overrides) and the notification.

`app/` is the program: command line, configuration file, and the processes
it runs.
