# specwriter

A terminal program for writing a requirements spec as a stream of thoughts:
each submission is handed to an integrator command that folds it into a
single spec file, and the clarifying questions that the integrator leaves at
the end of the spec are listed for answering.

## Layout

- `src/` — the library, verified with Verus:
  - `text` — trimming, line splitting, searching, decimal numbers, UTF-8 lengths;
  - `edit` — the text buffer with a character cursor and its byte offset;
  - `question` — the question parser and the priority ordering;
  - `app` — the application state and how keys and integrator reports change it;
  - `integrator` — the command's arguments, failure descriptions, and the
    queue of submissions as a state machine;
  - `layout` — what the screen shows: status line, scrolling, soft wrapping,
    tab titles, dialogs, help hints;
  - `screen` — reading a rendered screen back as text, colours and emphasis;
  - `settings` — the settings model and the configuration directory;
  - `settings_tab` — the settings tab: focus, toggles, the field editor, saving;
  - `cli` — the command-line options.
- `app/` — the program around it: terminal input and drawing, the task that
  runs the integrator command, prompts, and the settings file.
- `tests/` — tests of the library.

## Running

The program takes the integrator command with `--command` (or the
`SPECWRITER_COMMAND` environment variable) and the spec file's name with
`--spec-file` (or `SPECWRITER_SPEC_FILE`); `--specs-dir` names the directory
that holds the spec file (the current directory by default). These give the
defaults of the settings, which the settings file in the configuration
directory (`$XDG_CONFIG_HOME/specwriter` or `~/.config/specwriter`) can
override; the Settings tab edits and saves that file, and the saved settings
take effect at the next start.
