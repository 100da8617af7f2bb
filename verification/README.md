# bpf_object

A verified reader of compiled eBPF object files. `Object::parse` takes the
bytes of an ELF file and gives back what a loader needs: the maps, programs,
functions, relocations and symbols of the file, its license, the kernel version
it asks for, and its type information.

- `src/` is the library. Every function is specified over mathematical models
  of sections, symbols and objects, and proved with Verus. `elf.rs` is where the
  bytes of a file are opened, by the `object` crate, and copied into plain
  values; `section.rs`, `map.rs`, `insn.rs`, `kind.rs`, `license.rs` and
  `version.rs` read the parts, `code.rs` and `object.rs` put an object together,
  and `load.rs` runs over a whole file. `section_laws.rs` and `load_laws.rs`
  state what follows for sections and for files.
- `tests/` runs the library on single parts, on hand-made sections and on whole
  files of both byte orders.
- `app/` wraps the library for ordinary code: printable errors, C strings.

Type information (the `.BTF` and `.BTF.ext` sections) is decoded by functions
that the caller supplies. Instructions and map definitions are understood in
the byte order of the machine that reads them.
