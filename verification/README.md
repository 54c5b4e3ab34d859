# synch

A folder synchroniser. Given pairs of source and destination folders, it
reads both trees, finds what the destination lacks or holds in an older or
different version, and what it holds that the source no longer has, and
writes a shell script of copy and delete commands that makes the
destination a mirror of the source.

The decisions are a library whose behaviour is stated in contracts and
proved with Verus:

- `fold`, `fic`: the in-memory trees (files keyed by lower-case name) and
  the comparison of two files (size first, then modification time in whole
  seconds; an optional rule for destinations carrying a 4096-byte header).
- `comparer`: the two walks, one finding copies, one finding deletions,
  each stated as a spec function of the two trees; `mirror` proves that
  both walks find nothing exactly when the destination mirrors the source.
- `scriptgen`: the text of each script command, for unix and windows.
- `paramcli`, `readconf`: command line and configuration file.
- `join`, `explorer`, `logger`, `progression`, `span`: the decisions of
  the pipeline stages (pairing trees in order, exceptions and counts while
  reading, log lines, progress percentage).

`app/` runs the stages in threads, reads the file system, and writes the
script and the log.
