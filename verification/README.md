# mds

A music download script: it reads input files that list songs (local files
or URLs, with optional artist and cover), and downloads, converts and tags
each song that is not yet in the output directory, using yt-dlp and ffmpeg.

- `src/` is the library, verified with Verus: the input-file format
  (`parser`), the command line (`args`), formats and options (`options`),
  download planning (`download`), cover art (`cover`), searching (`search`)
  and cleaning the output directory (`clean`), on top of character-sequence
  helpers (`text`).
- `app/` is the program around it: reading files and directories, running
  yt-dlp and ffmpeg, fetching covers over the network, asking questions and
  printing. The handling of each song is a loop in which `download_step`
  decides the next action (skip a present song, settle the cover, download,
  convert, remove the temporary files) and `app/` performs it and reports
  what happened; cleaning asks its questions as `deletion_verdict` says.
- `tests/` runs the library on concrete inputs.
