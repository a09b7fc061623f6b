# Lan Mouse+

Mouse, keyboard, clipboard and files shared between computers on one network.

- `src/` is the core, written and proved in Verus: the service's state machine, the clients, the
  file-transfer protocol (paths, frames, sender, receiver, dispatch, trust), the clipboard,
  discovery, connections, drop zones, the command line, log shipping, the Windows service and
  what the windows show. Contracts say what the functions return and change; the `law_` functions
  state what holds across functions, and `service/history.rs` what holds over any sequence of
  events.
- `tests/` runs the core on concrete values, with the real hash, compression and image crates.
- `app/` is the program: sockets, files, processes and devices around the core. It performs the
  actions that the core asks for, and hands back what came of them. Its window (`frontend.rs`) is
  part of builds with the feature `gtk`; without it the program is the service.

Input capture and emulation are tasks that take commands and report events (`app/input.rs`); the
dummy ones are used where a platform offers none.
