# osnip

Screen pinning for Wayland: select a region or take the image on the clipboard,
and keep it on the screen in a window of its own.

* `src/` is the library. It holds what the programs decide: the registry of pins,
  the windows that show them, the protocol between clients and the daemon, the
  connections, the thumbnails, the configuration. Every function there has a
  contract that Verus proves, over the outside functions whose contracts are
  stated next to their calls.
* `app/` holds the programs around it: sockets, files, external programs, windows
  and the command line. It is one program under two names: `osnip` is the client,
  and under the name `osnip-daemon` it is the daemon, so a link of that name has to
  be installed next to it.
* `tests/` runs the library.
