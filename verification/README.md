# dexor

A small tool for XOR-decoding files: some AV/EDR quarantines "encrypt" a file
by XOR-ing every byte with one key byte, and since XOR is its own inverse the
same XOR gives the original back. Drop files or folders in, set the key, and
each decoded file lands in a new `dexor-decoded/` folder next to its input,
named `dexor_<original>`.

Layout:

- `src/` — the verified library:
  - `xor.rs` — the XOR itself and its laws (applying it twice restores the
    bytes; a non-zero key changes every byte);
  - `paths.rs` — paths as sequences of components of std's kinds (Windows
    prefix, root, `.`, `..`, names), and the file-name / parent operations the
    job planner needs;
  - `jobs.rs` — turning what the file system showed at the dropped paths into
    decode jobs, what running one job writes, and the laws on where output
    goes;
  - `pending.rs` — the queue of dropped paths, without duplicates;
  - `key.rs` — reading the key box (trimmed, one byte in hex) and showing a key
    as two hex digits;
  - `presets.rs` — vendor presets and the label the key picker shows;
  - `log.rs` — the kind of a log line, from its first character;
  - `session.rs` — what the window keeps between frames, and each step of a
    decode run: what happens on each event, what comes next, and the log line
    it gives;
  - `text.rs` — building log text: appending to a string, numbers in decimal.
- `tests/` — tests of the library.
- `app/` — the egui window, its theme, and the file-system edge (scanning the
  dropped paths, reading and writing files).
