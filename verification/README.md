# nand2tetris

The software tools of the nand2tetris course, written in Verus with their
behaviour stated as contracts and proved:

- `src/hack`: the Hack assembler. Source lines are cleaned and classified
  into A-, C- and L-commands; a first pass binds labels to ROM addresses, a
  second writes one 16-bit word per instruction, placing variables from RAM
  address 16 on.
- `src/vm`: the VM translator. Each line is read as a stack-machine command
  and written as Hack assembly after a bootstrap that sets the stack pointer
  and calls `Sys.init`. `machine.rs` gives the Hack instructions that the
  translator writes a meaning (registers and RAM, jumps to labels), and
  `behaviour.rs` proves what each command's code and each shared routine
  does when it runs: pushes and pops, arithmetic and comparisons,
  branches, function entry, call and return, and the bootstrap.
- `src/jack`: the Jack compiler's front end: the tokenizer, the symbol table,
  the class registry and a recursive-descent compilation engine whose every
  step is stated in `grammar.rs`. `vm_code.rs` states the shape of the code
  it writes, proved of every class it compiles: no label twice, every jump
  to a label of its own function, nothing but a method's `pop pointer 0`
  before the first `function` line.
- `src/text.rs`, `src/name_map.rs`: character-sequence helpers and a small
  map from names to values used by the tables.

`app/main.rs` is the command-line front end (`asm` and `vm` subcommands): it
reads and writes files and walks directories, and leaves all assembling and
translating to the library. `tests/` exercises the library on concrete
programs.
