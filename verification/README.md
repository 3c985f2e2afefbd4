# gitdiff_tui

A keyboard-first terminal client for local Git repositories (changes,
side-by-side diffs, history, branches, a file tree with an editor, a command
runner), built on ratatui and crossterm.

The library under `src/` holds everything the program decides, verified with
Verus:

- `app`: the application state; `App::update` takes an action (a key, a
  mouse event, the result of background work) and answers with the outside
  work it asks for (`Effect`); `App::can_update` tells beforehand whether an
  action can be taken.
- `git`: the `git` argument lists, the parsers of its output, the two sides of
  a diff, directory listings and binary detection.
- `diff`: line alignment for the side-by-side view (the line diff itself comes
  from the `similar` crate).
- `edit`, `text`, `ui`: editing at byte columns on character boundaries, text
  helpers, and what the panels show.
- `recent`, `terminal`, `filetree`, `watcher`: the recent-project list, the
  command runner's scroll-back and history, the file tree, and the watcher's
  event filter and debounce.

`app/` is the program around it: command line, logging, the event loop,
drawing, running `git` and the shell, files, and the file-system watcher.
