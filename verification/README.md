# yascan

The logic of Yascan's terminal interface and of its `yascan-util` tool,
verified with Verus.

- `src/` is the verified library:
  - `app` — the interface state (log of at most 1000 entries, scrolling,
    loading spinner, overlay) and how keys, the mouse wheel and scanner
    messages change it;
  - `view` — what the banner, log panel, status bar and thread overlay show,
    as rows of styled spans;
  - `events` — log events and scanner messages, UTC time of day;
  - `settings` — the scan settings shown in the banner;
  - `styles` — colours and span styles;
  - `text` — decimal digits, digit grouping, middle truncation of paths;
  - `util` — the command and option rules of `yascan-util`, rule-file
    selection, default indicator files, input ordering;
  - `laws` — properties across operations.
- `app/` is the program around it: the `yascan-util` binary (downloads,
  archives, files, prompts) and the terminal front end (`app/tui.rs`), which
  reads terminal events and the scanner's messages, hands them to the
  library and draws the rows it returns.
- `tests/` runs the library on concrete values.
