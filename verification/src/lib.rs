//! Verified core of a YouTube Music desktop client: the InnerTube session and cookie logic,
//! response models, stream-format selection, cipher helpers, PoToken bookkeeping, lyrics
//! romanization, the play queue and the stream-resolution decisions.

pub mod clients;
pub mod clock;
pub mod codec;
pub mod text;
pub mod transport;
pub mod auth;
pub mod models;
pub mod cipher;
pub mod potoken;
pub mod romanize;
pub mod lyrics;
pub mod videoproxy;
pub mod endpoints;
pub mod queue;
pub mod orchestrator;
pub mod hotkeys;
pub mod db;
pub mod position;
pub mod settings;
