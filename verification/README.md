# tt-spotify-bot

A music bot for TeamTalk servers. The library knows Spotify and YouTube; the
program in `app/` plays from Spotify.

- `src/` is the library: the queue and the player state, the chat commands, the
  command processor, configuration and setup, the data folder, the systemd
  service, the audio framing and the menus and dialogs of the tray. Every
  function there is verified against its contract; public proof functions state
  what holds of the library as a whole.
- `app/` is the program around it: the command line, files, the TeamTalk
  client, the Spotify session, and the volume and sample rate arithmetic, which
  is floating point.
- `tests/` runs the library on concrete values.

What is believed without proof of other crates stands in a few functions marked
as such: letter case (`src/text.rs`), the search cache (`src/bot/cache.rs`), the
shuffle (`src/bot/queue.rs`), JSON (`src/spotify/metadata.rs`), the links a
message can hold (`src/spotify/types.rs`) and Spotify uris
(`src/spotify/uri.rs`). Each says in its comment what it takes for granted.
