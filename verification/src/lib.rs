//! A coding agent for the desktop: what it knows, what it decides and what it shows.
//!
//! The library performs nothing itself. A turn of the agent, a call of a tool, a revert and the
//! window are state machines: they say what is to be done, are told what came of it, and go on.
//! Whoever drives them reads and writes files, talks to providers, calls `git`, keeps the
//! database and draws the window.
//!
//! - Text: `text`, `split`, `search`, `number`, `order`, `map`, `path`, `relative`, `uri`, `json`,
//!   `markup`.
//! - The agent: `message`, `session`, `tool`, `builtins`, `context`, `toolrun`, `toolout`, `agent`,
//!   `stream`, `turn`, `snapshot`, `engine`, `lsp`, `mcp`.
//! - Providers and accounts: `provider`, `catalog`, `sources`, `auth`, `pkce`, `callback`,
//!   `openai`.
//! - What is kept, and where: `store`, `dirs`.
//! - The window: `markdown`, `diff`, `format`, `history`, `dialogs`, `nav`, `msg`, `effect`,
//!   `state`, `step`, `update`.
//!
//! The modules whose names end in `_laws` hold what is true of these whatever they are given:
//! `text_laws`, `encoding_laws`, `path_laws` and `relative_laws` of text; `stream_laws`,
//! `turn_laws`, `answer_laws`, `tool_laws`, `toolrun_laws` and `toolout_laws` of the agent;
//! `account_laws` of providers and accounts; `markdown_laws`, `diff_laws`, `format_laws`,
//! `history_laws`, `choice_laws`, `window_laws` and `ui_laws` of the window.
use vstd::prelude::*;

pub mod text;
pub mod split;
pub mod search;
pub mod number;
pub mod text_laws;
pub mod message;
pub mod session;
pub mod tool;
pub mod agent;
pub mod json;
pub mod stream;
pub mod stream_laws;
pub mod turn;
pub mod turn_laws;
pub mod answer_laws;
pub mod markup;
pub mod diff;
pub mod diff_laws;
pub mod markdown;
pub mod markdown_laws;
pub mod format;
pub mod format_laws;
pub mod order;
pub mod map;
pub mod catalog;
pub mod sources;
pub mod path;
pub mod relative;
pub mod context;
pub mod path_laws;
pub mod relative_laws;
pub mod builtins;
pub mod toolrun;
pub mod toolrun_laws;
pub mod tool_laws;
pub mod toolout;
pub mod toolout_laws;
pub mod pkce;
pub mod uri;
pub mod encoding_laws;
pub mod provider;
pub mod callback;
pub mod dirs;
pub mod store;
pub mod snapshot;
pub mod lsp;
pub mod mcp;
pub mod engine;
pub mod dialogs;
pub mod choice_laws;
pub mod history;
pub mod history_laws;
pub mod msg;
pub mod effect;
pub mod nav;
pub mod state;
pub mod step;
pub mod update;
pub mod ui_laws;
pub mod window_laws;
pub mod auth;
pub mod openai;
pub mod account_laws;

verus! {

} // verus!
