# olympus_raw

Verified core of a RAW developer.

- `src/olympus_metadata.rs`: reads the Picture Mode from an Olympus ORF
  MakerNote (signature search, little-endian reads, IFD lookups) and names
  Picture Modes; the read-after-write, appended-bytes and leading-bytes laws
  are proved there.
- `src/raw_processing.rs`: chooses the Olympus look for a file and plans the
  development pipeline (linear-mode setting, kept steps, demosaic choice).
- `src/text.rs`: character helpers (ASCII upper case, filtering, search).
- `app/`: decoding with rawler and the floating-point pixel pipeline, which
  takes its decisions from the library.
