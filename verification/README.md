# millo

The controller-host core of a GRBL milling application, written in Verus:
reading G-code line by line, the modal rules of a block, dry-run and real-run
plans and their preflight checks, GRBL status and settings parsing, the sender
journal, run recovery, surface-probing sessions, machine profiles, plugin
packages and their script engine, and the checks on PCB job requests.

- `src/` is the verified library. Each public function states its result in
  `ensures`; the laws that relate several functions are public proof
  functions (their names start with `lemma_`).
- `app/` holds what the library cannot: floating-point geometry, JSON files on
  disk, the serial link, and running plugin scripts.
- `tests/` runs the library on concrete inputs.

Calls into `sha2`, `base64` and `rhai` go through small trusted wrappers whose
contracts are stated beside them.
