# twitch_reader

A Twitch chat reader: it shows a channel's chat in a terminal interface,
lets the broadcaster chat back and clear the chat, reads messages aloud
through Open JTalk, and can feed the chat to a WebSocket overlay.

## Layout

- `src/` — the library, verified with Verus:
  - `text.rs`, `utf8_facts.rs` — string helpers (trimming, white space,
    decimal numbers, replacing) and facts about UTF-8 encodings;
  - `dictionary.rs`, `trie.rs` — the reading dictionary and the word trie
    (the `trie_rs` crate, behind specified wrappers);
  - `regex_ops.rs` — the calls into the `regex` crate;
  - `word_process.rs` — how a chat message becomes text for the speech
    synthesizer, and the dictionary file format;
  - `yomi.rs` — the voice reader's settings and decisions;
  - `chat.rs` — chat messages, server events and outgoing requests;
  - `tui_state.rs`, `tui_view.rs` — the terminal interface's state machine
    and what it displays;
  - `auth.rs`, `helix.rs`, `nico.rs` — the decisions of the login, the
    Helix requests and the overlay server.
- `app/` — the program around the library: environment, login, IRC,
  HTTP, terminal drawing, processes and files.
- `tests/` — tests of the library.

## Running

The program reads its settings from the environment (or a `.env` file):
`TWITCH_USERNAME`, `TWITCH_CLIENT_ID`, `TWITCH_CLIENT_SECRET`,
`TWITCH_REDIRECT_URI`, `AUTH_FILE`, and optionally `ENABLE_YOMI`,
`ENABLE_NICO`, `VERBOSE_LOG`, `MAX_CHAR_COUNT`, `MAX_QUEUE_COUNT`,
`QUEUE_DROP_POLICY`, `NICO_ADDRESS`, `OPEN_JTALK_DICT_PATH` and
`OPEN_JTALK_VOICE_PATH`. Reading dictionaries are `word,reading` lines in
the files of `./dict`.
