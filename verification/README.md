# A verified 8086 real-mode emulator core

The library (`src/`) is the machine of a small DOSBox-style emulator: 640 KiB of
memory, the 8086 register file, an instruction decoder and executor for the
instructions that boot sectors commonly use, and a minimal BIOS/DOS service layer
(teletype output, floppy reads, keyboard stubs, `INT 21h` print and exit).

Every operation is specified against a mathematical model of the machine
(`machine::Machine`: registers, memory as a byte sequence, the floppy image, the
active segment override and the console output) and proved with Verus:

* `memory`, `regs` - memory and register file, with read/write specifications;
* `machine` - the model and its primitive state transformers (fetch, ModR/M
  operands, stack);
* `cpu`, `modrm` - the executable machine state and its primitives, boot, `step`, and
  `step_checked`, which refuses an instruction that would not complete;
* `alu`, `ops` - arithmetic/logic, shifts, string instructions, ENTER;
* `bios` - the software-interrupt services, and a test of whether one returns;
* `line` - the line editing of the command prompt (one typed key at a time);
* `opcode`, `decode`, `semantics`, `execute` - instruction decoding and the
  operational semantics of every instruction, including REP;
* `laws` - properties proved of the model (read-after-write, stack round trips,
  flag updates, instructions that undo each other, execution never writing the
  disk image or resizing memory, decoding only fetching, results independent of the
  fuel that bounds REP and prefix runs, r/m read-back after write).

`app/` is the interactive shell that runs on the glenda kernel runtime: it reads
commands, loads floppy images from the initrd, runs the machine and prints what the
machine sends to its console.
