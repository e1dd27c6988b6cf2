# hyprpilot

hyprpilot drives a native GUI app on a Hyprland desktop without touching
the user's own focus and cursor: in a session that shares the user's
desktop it guards every action (snapshot, act, put back, check), and in
an isolated session it runs the app on an agent desktop of its own.

The crate is written in Verus. Its two halves:

- `src/` is the library, and every function in it is verified: the
  command-line grammar, the `hyprctl` command lines and the parsing of
  their replies, the desktop guard, the key-chord and character tables,
  session state and its transitions, the host ledger and its unwinding,
  the frame and capture checks, and the skill front-matter validator.
  Functions that talk to the desktop never do so themselves. They take
  the means as arguments: single-use runners for one `hyprctl` command
  each, or a plan of steps handed whole to the caller (the guard's
  restoration, the keys of a chord list, a teardown step). Their
  contracts say which command each runner carries, which runners are
  left untouched, and what comes of each answer.
- `app/` is the program around it: argument handling, `hyprctl` and
  other processes, the Wayland virtual pointer, files on disk, JSON,
  and the loops that carry out the library's plans.

`tests/` runs the library on concrete values.
