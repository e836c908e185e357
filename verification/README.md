# zytunes_tui

The state machine of a terminal music player that syncs a library with portable
players: browsing, playback and play counts, playlists, the sync queue, CD
import, stem splitting and the tag manager. The library is written in Verus;
every function states what it does and is proved against that statement.

- `src/app.rs` holds the whole state, `App`; the modules under `src/app/` hold
  what changes it, one subject each. `App::handle_key` is where key presses come
  in, `App::handle_audio_event` where the audio thread reports, and the
  `handle_*` functions of `tags.rs` and `retag.rs` take what services answer.
- The other modules of `src/` hold the models and the algorithms under them: the
  device index and its laws, copies and duplicates, play counters, sorting,
  number formats, album art, animations, texts.
- The state never touches the disk, the network or a clock. It reads `App::host`,
  and leaves commands and requests in `App::out` and in the vectors that it is
  handed.
- Public `proof fn`s state what holds across functions, such as that removing a
  device track just added gives back the listings and the lookup set, or that an open modal claims every key.
- `tests/` runs the library; `app/` is the terminal side: colours, key events,
  the clipboard, files.
