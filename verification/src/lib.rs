pub mod auth;
pub mod chat;
pub mod dictionary;
pub mod helix;
pub mod nico;
pub mod regex_ops;
pub mod text;
pub mod trie;
pub mod tui_state;
pub mod tui_view;
pub mod utf8_facts;
pub mod word_process;
pub mod yomi;
