# ms_pdb

Reading the byte-level structures of Program Database (PDB) files, CodeView symbol records
and COFF image headers, with every function's contract proved by Verus.

## Layout

- `src/parser.rs` — a cursor over little-endian bytes, with the byte-level model
  (`le_u16_at`, `le_u32_at`, NUL-terminated strings) that the other contracts use.
- `src/number.rs` — CodeView numeric leaves: decoding, integer conversions and text.
- `src/syms.rs`, `src/offset_segment.rs`, `src/arch.rs` — symbol records: framing, the
  iterator over a symbol stream, and the decoding of each record kind.
- `src/machine.rs`, `src/section.rs`, `src/image.rs` — COFF headers and their names.
- `src/coff_groups.rs` — the COFF groups that the linker module lists, sorted, and the
  search for the group that holds an address.
- `src/modi.rs` — module streams: their substreams, symbol data replacement and global refs.
- `src/dbi/` — the Optional Debug Header and the Section Map substreams of the DBI stream.
- `src/sections.rs`, `src/section_listing.rs`, `src/listing_text.rs` — the listing of
  sections, COFF groups, section contributions and module symbols, and the text of its lines.
- `src/sym_text.rs` — the text line of one symbol record, with the scope depth carried from
  record to record; type, item and register names come from callbacks.
- `src/sym_listing.rs`, `src/find.rs` — choosing the records of a symbol listing, and
  searches (by address query, and by regular expression over record names).
- `src/binding.rs`, `src/once.rs`, `src/text.rs` — the binding key, a slot filled on demand,
  and the text forms of numbers and byte strings.
- `app/` — the command-line side: `clap` argument types, `Display` forms and the printing of
  the listings (module symbols, sections, name and address searches).
- `tests/` — tests of the library.

Calls into `bstr`, `pretty-hex`, `uuid` and `regex` stand behind small trusted wrappers, each
with a doc comment that says what its contract claims.
