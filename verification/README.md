# gototerm

A terminal with tabs, panes and a workbench: a list of files, a preview, and
the terminal below it. The library holds the logic, written in Verus and proved
against its contracts; the program around it draws, reads files and runs shells.

- `src/` — the library. `multiplexer`, `routing` and `arrange` are the window as
  a whole; `window`, `selection`, `clipboard`, `input` and `links` are a pane;
  `sidebar`, `reader`, `preview` and `launcher` are the workbench; `splitter`,
  `osc` and `gt` take the stream of a shell apart. `promises` states what holds
  of the window as a whole, and `sidebar_laws` that the rows of the sidebar keep
  up with its state.
- `tests/` — the library at work on examples.
- `app/` — the program: the window, the pseudo-terminals, the drawing, and the
  work that is done beside it.
