# Vea

Vea is a 64-bit, big-endian, load-store architecture whose instructions are
variably encoded (2 to 13 bytes). This crate is its toolchain, written in Verus
and verified:

- `src/vea_sim/assembler`: the assembler (lexing, parsing, layout with label
  relaxation, encoding) and its laws (image layout, label references, frame
  lengths);
- `src/vea_sim/onestep`: the instruction-level simulator;
- `src/vea_sim/nstep`: the four-stage pipelined simulator (fetch, decode,
  execute, writeback; instruction cache), with its timing law;
- `src/vea_sim/agreement.rs`: the proofs that every fault-free pipeline run is
  an instruction-level run, and that the pipeline reaches every halt the
  instruction-level simulator reaches, for programs in which no store writes
  the frame right behind it (and, for the second, each frame sits on a page
  that was mapped before the instruction ahead of it ran), and in which
  every nop and halt declares its two bytes;
- `src/vea_sim/memory.rs`, `shared.rs`, `cli.rs`, `ui/`: paged memory, the
  state the simulators publish, the command-line and terminal-view logic;
- `src/assembler`: a second, table-driven assembler with its own frame format,
  and its laws (every table row is found by mnemonic and by opcode; register
  names round-trip; a program of table rows assembles to its rows' frames);
- `src/simulator`: a second core for that format (fetch, decode, execute) and its
  view state;
- `src/text.rs`: character and number formatting shared by all of it.

`app/` holds what Verus does not check: the command line, file and terminal
I/O, and the painting of the terminal views. The binary runs as `asm`,
`simulator` or (under any other name) `vea`.
