# hot_latex

A terminal tool that keeps named groups ("pins") of LaTeX files together with
the arguments they are compiled with, stored in `./HotLatex-config.json`.

- `src/` is the verified library (Verus):
  - `ui.rs`: key events, the confirmation screen and the option menu, each a
    state machine (`confirm_step`, `menu_step`);
  - `checkbox.rs`: the check-box list (`box_step`, `kept`);
  - `text_input.rs`: the one-line prompt, with a byte-position cursor over a
    UTF-8 text (`typing_step`, `byte_len`);
  - `pin.rs`: pin groups and the text that shows them;
  - `logger.rs`: the list of groups, paths, and the LaTeX-source test;
  - `style.rs`: bold-blue styling through `colored`.
- `app/` is the program around it: terminal drawing and key reading with
  `crossterm`, the configuration file with `serde_json`, and `main`.
- `tests/` runs the library on concrete inputs.
