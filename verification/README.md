# perch

The verified core of perch, a terminal dashboard that lists a git working
tree's changed files live, with a diff overlay, three views of the list
(Normal, Condensed, Tree) and a worktree switcher.

- `src/` is the library, verified with Verus: the view model (`state`), the
  three row builders (`rows`, `tree`), the key handling and event-loop
  decisions (`controller`, `keys`, `dialog`), the worker messages and their
  coalescing (`worker`, `batching`), configuration and flag precedence
  (`config`), and the editor command line (`commands`). `laws` and
  `visibility` prove properties that span several operations.
- `tests/` exercises the library on concrete values.
- `app/` is the program around it: command line, configuration file,
  terminal input and the event loop.
