# lanio

A Stremio addon server for the videos of a local media directory.

- `src/` is the library, verified with Verus: the index of videos by IMDb identifier, the
  decisions of the scanner, the catalogs, the stream links, and the answers to requests for a
  video. The functions named `law_*` state what holds of several of these together, for example
  that the link to a file leads back to that file, or that a renamed video is served from its
  new path only.
- `app/` connects the library to the environment, the file system, the movie database and HTTP.
  How a password becomes a token, how file names and range headers are read, and how the movie
  database is asked is supplied by an implementation of its `Services` trait.
- `tests/` runs the library on concrete values.

Paths are byte sequences, as on Unix.
