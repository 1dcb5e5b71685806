# oldgames_parser

Reads the game catalogue of old-games.ru and each game's pages, and collects
per game its catalogue entry, description, ratings, groups, bookmarks,
recommendations, modifications, screenshots and user comments.

- `src/` is the library, verified with Verus: an HTML document as a node
  arena with the queries run on it (`dom`), the records (`model`), reading
  the catalogue (`games_index`), a game's pages (`game_desc`) and its comments
  (`comments`), the bracket markup of descriptions (`markup`), the cache
  layout (`cache`), which texts read as an `f32` (`float_text`), and text
  helpers (`text`, `pattern`, `collect`). Parsing HTML (`select`),
  WINDOWS-1251 decoding (`encoding_rs_io`), regular expressions (`regex`)
  and date reading (`chrono`) are called through a few trusted functions
  whose contracts name their results.
- `app/` is the program around it: page loading and caching over HTTP,
  JSON and zip output, and `main`.
- `tests/` runs the library on sample pages.

Functions that read a page come in pairs: `X` requires that the page holds
what it reads (as the spec functions state it), and `try_X` checks that
first and returns `None` (or an error) otherwise.
