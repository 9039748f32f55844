# monitr

A terminal activity monitor whose decision-making core is written in Verus and
proved against its contracts.

- `src/` is the verified library: byte, rate, duration and time formatting;
  the process filter language (`cpu>50`, `mem<100mb`, `field:value`); command
  line parsing; parsing of `lsof` and `nettop` output for port lookups and
  process inspection; the bounded metric history; saved preferences; the
  process-table layout and mouse hit-testing; the text of the screens; and the
  monitor's state machine, which maps each key or mouse event to the next view
  state and to the effect the program must carry out.
- `app/` is the program around it: terminal setup and drawing, process
  sampling, running `lsof`, `nettop` and signals, JSON output, and reading and
  writing the preferences file.
- `tests/` runs the library on concrete inputs.
