# Daydream

Windows x64 PE and process-memory triage for defensive reverse engineering. The analysis is a
Verus library: its contracts are proved, and the program around it only talks to the system.

## Layout

- `src/` is the library.
  - `pe/`: headers, section layout, identity, image regions, snapshots and step-by-step reading of
    an image in another process.
  - `opcode/`: the trap and debug-register catalog, instruction decoding, the decode queue, the
    comparison of mapped bytes with the raw executable, raw occurrences and padding.
  - `imports/`: import descriptors, thunks and references to import slots.
  - `debuginfo/`: CodeView records and source paths of program databases.
  - `report/`: JSON documents of a scan.
  - `memory`, `process`, `teb`, `stack_strings`: what is decided before and after each system call.
  - `strings`, `string_scan`, `patterns`, `code_section`: searches over bytes.
  - `paths`: parts of file paths.
  - `layout`, `console`, `triage`, `progress`: saved results and progress.
- `tests/` runs the library on concrete values.
- `app/` is the command-line program for Windows.

## Reading the contracts

A function that accepts or refuses something is stated over a spec function that names the first
reason for refusal, such as `parse_error` or `section_layout_error`. Loops over bytes are stated
over recursive spec functions on sequences. Facts that hold across functions are public proof
functions whose names begin with `law_`.

Memory reservations may be refused by the system. Where a result depends on that, the contract says
what is returned in either case, and a function beside it takes the reserved memory, or whether it
was granted, as an argument.

Calls into `iced_x86`, `ms_pdb` and unspecified parts of the standard library stand behind small
functions whose doc comments say what is relied on.
