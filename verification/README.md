# reborn

A remapper for Minecraft mod jars: it reads each class file of a jar, renames
the `Utf8` constants that a mappings table (MCP `fields.csv`, `methods.csv`,
`params.csv`, plus extra sources given on the command line) holds, and writes
the classes back into a new jar.

## Layout

- `src/` — the library, verified with Verus:
  - `bytes`, `reader`, `mutf8`, `text`, `split`, `order`: bytes, big-endian
    numbers, modified UTF-8, string helpers and a stable text sort.
  - `constant_pool`, `attributes`, `attribute_info`, `access_flags`,
    `classfile`: the model of a class file and its encoding.
  - `class_reader`, `attribute_reader`: the grammar of class files and the
    readers that follow it, with the renaming of `Utf8` entries.
  - `roundtrip`, `renaming`: laws that writing back what was read gives the
    bytes read, and that renaming changes only the renamed pool entries.
  - `signature_parser`, `opcodes`, `attribute_text`, `class_text`,
    `pool_display`, `decompiler`: printing a class and a first cut at Java source.
  - `mappings`, `string_map`, `cache`, `remapper`, `args`, `tsrg_trie`,
    `colors`, `ui`: mapping sources and tables, the cache layout, output
    names, the run options and smaller pieces.
  - `extra_sources`: where a `file://` extra mappings source points, and the
    rows of the mappings CSV it holds.
- `tests/` — tests of the library on concrete values.
- `app/` — the command-line program: argument parsing, files, zip archives,
  downloads and threads, around the library.
