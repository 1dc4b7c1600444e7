# cecli

A verified library for .NET assemblies: it reads and writes the PE container,
the metadata root and its tables, CIL method bodies, and the debug symbols that
stand beside them (portable PDB, native PDB, MDB). Every item under `src/` is
checked by Verus against its contract.

| module      | what it holds                                                    |
|-------------|------------------------------------------------------------------|
| `bytes`, `io`, `text` | little-endian fields, cursors, UTF-8 and UTF-16        |
| `token`, `element`, `flags`, `error` | the vocabulary shared by all readers    |
| `metadata`  | streams, heaps, table rows, coded indexes, and the builder       |
| `pe`        | headers, sections, resources, checksum, and the image writer     |
| `cil`       | opcodes, instructions, exception sections, method bodies         |
| `mdb`       | the MDB symbol file, read and written                            |
| `pdb`       | portable PDB read and written, embedded PDB, native PDB read     |
| `model`     | a module as types, methods, fields and instructions              |
| `rocks`     | helpers on the model: queries, documentation names, an IL parser |

Files whose name ends in `laws` state what holds across several functions: that
what is written reads back, that sorting sorts, that an image which nobody
touched is emitted unchanged. Those with `history` in their name state it for a
builder after any series of calls.

`app/` is a small command-line program over the library. `tests/` runs the
library on concrete files and values.
