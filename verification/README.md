# tunetagger

TuneTagger identifies MP3 files from their audio, looks up metadata,
scores and chooses candidates, enriches credits from MusicBrainz and writes
clean ID3 tags into copies of the files.

The crate is split in two:

- `src/` is the library, verified with Verus: candidate scoring and
  ranking, MusicBrainz recording/release/composer selection, album-artist
  and composer resolution, the ID3 edits a set of tags makes, release-year
  parsing, file naming, batch decisions and accounting, the batch report and
  console summary, failure classification, and the guided setup dialog as a
  state machine. Laws that span functions are public proof functions next to
  the functions they speak of (`lemma_*`).
- `app/` is the command-line program around it: argument parsing, terminal
  and file I/O, HTTP requests, audio recognition and the `id3` crate. It
  hands the library plain values and acts on what comes back.

Tests of the library are in `tests/`.
