# spotify_importer

Reads exported playlists (Tidal JSON exports, raw CSV lists of artist and
track, YouTube playlist page data), turns every entry into an
(artist, search query) pair, matches the tracks that a Spotify search
returns back to the requested artist, and batches the matched tracks for
the requests that add them to a playlist.

- `src/` is the library, verified with Verus: the query building for each
  platform, title splitting, query sanitising, result matching and batching,
  each proved against a model over `Seq<char>`.
- `app/` is the program around it: command-line parsing, reading files,
  JSON and CSV deserialisation, and the calls to the Spotify Web API.
- `tests/` runs the library on concrete values.
