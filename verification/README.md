# my_hub

The logic of a desktop hub that keeps a suite of programs up to date from
their GitHub releases, written in Verus and verified.

- `src/` is the verified library: the program manifest and its merge of user
  overrides, the settings, the colour theme, version parsing and the update
  decision, the local update record, the program list and update dialog the UI
  shows, download and launch locations, autostart and self-update decisions.
- `app/` is the program around it: files, the GitHub API, the registry,
  launching programs and the Slint window.
- `tests/` exercise the library on concrete values.
