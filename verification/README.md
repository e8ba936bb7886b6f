# xray-manager

A manager for the Xray proxy core. It reads subscriptions, selects and probes
nodes, renders and activates configurations, and installs and upgrades the core
on Arch Linux hosts.

- `src/` is the library. It holds everything that is decided or computed, and
  Verus proves each function against its contract.
- `app/` is the `xrayctl` program. It reads files, runs commands, downloads and
  draws the menu, and asks the library what to do.
- `tests/` holds the tests of the library.

What changes a host is written as a program of steps (`src/program.rs`). A step
that fails either is ignored, ends the program, or leads to steps that undo what
was done. The library makes these programs and proves what they leave behind
wherever they stop; `app/` performs one step at a time and reports how it went.

Public proof functions whose names begin with `law_` state what holds of the
library as a whole, such as that a failed activation restores the configuration
that was active before.
