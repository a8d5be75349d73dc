# transcrever

Batch transcription of audio and video folders with two Whisper engines
(whisper.cpp and faster-whisper), organised as a queue of jobs in SQLite,
with review and `.txt` export.

## Layout

- `src/` — the verified library (Verus). It holds the rules of the
  application with their contracts:
  - `text.rs`: trimming, ASCII case folding, decimal rendering and parsing,
    joining — the character-level operations everything else is stated in;
  - `scanner.rs`, `path_order.rs`: which files are media, their extension,
    and the stable ordering of discovered files by relative path; paths are
    read in a portable form (component names joined by `/`) that `app/`
    builds with `Path::components`;
  - `backend/`: profile validation and the command lines of both engines,
    the assembly of whisper.cpp segments, the failure diagnostic;
  - `export.rs`: which text an export holds, and its temporary file name;
  - `db.rs`, `models.rs`: stored records, the first-run profile, job statuses;
  - `commands.rs`: the decisions of the command layer (audio data URLs and
    base64, worker choices and job outcomes, settings, environment reports).
- `app/` — the program around it: file system walks, processes, SQLite
  through sqlx, JSON decoding, floating-point timestamps, and a command line
  that drives the commands.
- `tests/` — tests of the library.
