# uninstall_many_programs

The decision logic of a bulk uninstaller for Windows, verified with Verus.

- `src/text.rs`: character-level string operations (trimming, searching,
  ASCII case mapping, UTF-8 lengths, decimal rendering).
- `src/cmdline.rs`: splitting uninstall command lines into program and arguments.
- `src/winpath.rs`: file names, parents and components of Windows paths.
- `src/uninstall.rs`: silent switches, product codes, the choice of uninstall
  command and the progress reports of an uninstall run.
- `src/uninstall_run.rs`: the order of an uninstall run, as a state machine
  that the application drives (look up, announce, run, report, pause).
- `src/size.rs`: which folder to measure for a program and how measurements
  become size updates.
- `src/size_probe.rs`: the order of a size probe, as a state machine (check
  that the probe is current, choose and claim a folder, measure, emit).
- `src/programs.rs`: installed programs, protection rules, the four Uninstall
  registry sources, registry values and ids.
- `src/categories.rs`: category guessing.
- `src/listing.rs`: building the program list from the subkeys read from the
  sources: hiding, deduplicating and sorting it.
- `app/`: the Tauri application around the library (registry, file system,
  processes, events); it builds on Windows only.
