# orbit

The tiling logic of Orbit, a dynamic tiling window manager for Windows 11,
written in Verus and verified.

- `src/` is the library: the window list of the workspace (`workspace`), the
  single-window, dwindle and master-stack layouts (`layout`, over the
  rectangles of `geometry`), window decisions such as which windows are tiled
  and how a window is moved so that its visible frame lands on its tile
  (`window`), what each window event and hotkey leads to (`events`), titles
  and the status payload sent to the bar (`text`), and the layout settings
  (`config`). The layout module proves that windows never overlap and stay
  inside the tiling area; the workspace module proves that tracking and
  untracking keep the window list free of duplicates.
- `app/` is the program around it: Win32 event hooks and calls, the
  configuration file and its watcher, hotkey registration, the UDP status
  broadcast, and the floating-point master-column width.
- `tests/` runs the library on concrete layouts, events and payloads.
