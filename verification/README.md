# vcpu_tasks

The tasks that back the vCPUs of a virtual machine: bringing their threads up,
running each vCPU in a loop, and dealing with what makes the guest exit,
including the emulation of the string I/O instructions INS and OUTS.

- `src/` is the verified library. It decides what to do next and performs no I/O.
  The loop of a vCPU and the emulation of an instruction are states: each asks
  for one action at a time and takes its outcome. The contracts fix the next
  state and the next action exactly; the modules whose names end in `_laws`
  prove what follows for whole runs.
- `app/` makes the calls: into propolis (registers, guest memory, ports, entering
  the guest, holding tasks), into pbind, to the threads and to the log. It needs
  the `propolis` and `pbind` crates of the propolis workspace beside those named
  in `Cargo.toml`.
- `tests/` runs the library on concrete values.
