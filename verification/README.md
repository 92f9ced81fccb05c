# audioleaf

A music visualizer for Nanoleaf light panels: it captures audio, turns its
spectrum into panel colours and streams them to the panels; an HTTP server
(`audioleaf-api`) controls it and follows what an AirPlay receiver
(Shairport Sync) is playing.

- `src/` is the library, verified with Verus: the configuration file and its
  checks and the removal of its obsolete keys, panel ordering and UDP frames, device selection, the panel layout,
  the SSDP discovery replies, the AirPlay metadata stream and now-playing
  state, the HTTP request checks, the visualizer's control state, audio
  device selection, stream health and restart bookkeeping.
- `app/` holds the programs around it: audio capture, the floating-point
  spectrum analysis, sockets, files, the terminal and the HTTP server.
- `tests/` exercises the library.
