# leon

The host-side and firmware-side logic of the Leon boot toolkit, written in
Verus: every function in `src/` carries a contract that the verifier proves.

- `src/` — the verified library: the `boot.toml` parser and serializer, the
  command trees and argument parser of `lbt` and `lbc`, ESP and boot-entry
  discovery, the FAT12/16/32 and GPT image layout, CRC-32, BGRT/ACPI/BMP
  parsing, frame-buffer drawing for the EFI-stub kernel, the boot-manager
  menu state machine and its view, the `lbm` menu model, and the texts of
  the reports the tools print.
- `app/` — the `lbt`, `lbc` and `lbm` executables: command-line entry,
  file and device I/O, external programs, JSON/TOML documents, and the
  terminal front-ends (ratatui, cursive). They call the library for every
  decision and every byte they write.
- `tests/` — tests of the library on concrete values.
