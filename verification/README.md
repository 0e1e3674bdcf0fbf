# applechu

A compatibility layer that lets CHUNITHM run on an ordinary Windows PC: it
emulates the cabinet's serial boards (LED, slider), its IO4 HID board and its
platform services (registry keys, virtual drives, clock, cabinet serial),
patches the game image before it starts, and relays national-match traffic.

Layout:

- `src/` is the library, written in Verus, every function verified against
  its contract: frame codecs and device state machines (`led`, `slider`,
  `io4`, `uart`, `uart_irp`, `serial`), the planning of import-table hooks over
  a module image (`hook_table`, `proc_addr`), the byte patches and their
  signatures (`patch_engine`, `patches`, `late_patches`, `network_patch`,
  `early_patch`, `x86_decoder`), the virtual registry and file system
  (`reg_hook`, `vfs`, `path_hook`, `platform`, `setupapi`), the national-match
  relay (`national_match`, `tree_walk`), the clock hooks' decisions (`clock`),
  the settings read from `AppleChu.toml` (`config`, `system_config`), and the
  loader's log lines, external-mod files and crash listings (`loader`,
  `exit_trace`, `text`). Proof functions named `lemma_*` with a doc comment
  state the laws the library keeps (round trips of the codecs, idempotent
  patching and unlocking, the time warp skipping maintenance, every memory
  walk ending, and more).
- `tests/` runs the library on concrete inputs.
- `app/` is the Win32 side: it reads `AppleChu.toml` into the library's
  settings, writes the log, reads
  and writes the game's memory to apply the early patches and the TLS hook,
  and runs the clock, music, frame-lock and crash-trace hooks on the
  library's decisions. The device hooks (LED, slider, IO4, serial ports,
  SetupAPI, registry, virtual drives) live in the library only;
  `app/` installs none of them.
