# starplayer

The core of a media library manager, written in Verus. Verus proves every
function in `src/` against its contract. Where a result comes from SQLite,
the file system or the platform, the contract states what the library
decides (the statements sent and what is made of the answers) and leaves
the answer itself unstated; a few small trusted wrappers make those calls.

- `series` reads the series name and episode number from a video file name
  (`Name - 01`, `S01E05`, `EP12`, `#03`).
- `scanner` decides which files are videos and what a scan records and prunes.
- `query` builds the SQL of media listings and smart playlists; values are
  always bound parameters, one `?` each.
- `statements` holds the text and bound values of every statement sent to
  SQLite; `db` keeps workspaces, media files and playlists there (`rusqlite`).
- `media_server` decides what a streaming request names and which bytes of
  the file a `Range` header asks for.
- `watcher` applies file-system changes to the index and keeps one watcher
  per workspace.
- `commands`, `player` and `launch` hold the decisions behind the user
  commands, the external players' command lines and the start-up guard.
- `text`, `paths` and `ids` are the string, path and identifier helpers the
  rest is built on.

`app/` is the program around the library: a command-line front end, the
HTTP server, the file-system walker and watchers, and process spawning.
