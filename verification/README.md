# capsulator

A guided installer window. The library in `src/` holds its decisions, each
with a contract proved by Verus:

- `text`: the network names in a terse scan listing (first word of every
  line) and whether the printed connection state reads "connected".
- `spinner`: the progress indicator that cycles through 0%, 5%, ..., 100%.
- `wifi`: the network picker (one open password field at a time) and the
  network manager command lines.
- `installer`: the installer's pages as a state machine driven by events
  (button presses, command exits, timer ticks), with the commands each page
  runs.
- `std_text`: the two standard-library calls the text code relies on.

`app/` is the GTK window that performs these decisions.
