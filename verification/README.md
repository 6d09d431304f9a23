# viewskater

A fast image viewer for folders of pictures: it keeps a window of decoded
neighbours around the picture on screen, so that a held key skates through a
folder without waiting for the disk.

- `src/` is the library: the caches and their bookkeeping, the list of a pane
  with its star filter, the stars and their files, the order of a folder, the
  JPEG and the EXIF block inside camera RAW files, the metadata that the side
  panel shows, the benchmarks and their reports. Every function there states
  what it does and is proved to do it with [Verus](https://github.com/verus-lang/verus).
  The functions named `law_...` state what holds of the library as a whole.
- `app/` is the program around it: the window, the threads, reading and writing
  files, and what is computed in floating point.
- `tests/` runs the library on concrete pictures, files and runs.

Time is counted in nanoseconds, and paths are texts, throughout the library.
What comes from outside crates stands in small functions marked
`external_body`, each with a comment that says what is taken on trust.
