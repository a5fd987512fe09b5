# lattice

The file and protocol layer of the Lattice spreadsheet, written in Verus:
file format detection, conflict detection for the open file, the recent-files
list, date and time conversions for spreadsheet cells (proleptic Gregorian),
the reading of charts and formulas out of `.xlsx` archives, the print-ready
HTML of a sheet, find-and-replace and deduplication over cell texts, and the
MCP server's catalog of tools, prompts and resources and its routing of
requests.

- `src/` is the verified library. Each public function states its result in
  its contract; the laws that relate several functions are public proof
  functions whose names begin with `law_`.
- `tests/` runs the library on concrete values.
- `app/` is the unverified edge: reading and writing files,
  JSON framing and the clock's floating-point conversions. It hands the
  library plain values and takes plain values back.

Outside crates: `sha2`, `quick-xml` and `zip` are called from the library
through small trusted wrappers whose contracts name what they return; the library
carries `serde_json`'s `Value` through, opaque, as the input schema of a tool;
`serde`, `serde_json` and `uuid` do their work in `app/`.
