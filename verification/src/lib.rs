//! The decisions behind the MXU desktop shell: how the KKAFIO command line program is launched,
//! watched and stopped, where the web server listens, and what it answers.
pub mod assets;
pub mod child;
pub mod cli;
pub mod game;
pub mod handlers;
pub mod headers;
pub mod json;
pub mod mime;
pub mod origin;
pub mod output;
pub mod reply;
pub mod runtime_log;
pub mod server;
pub mod settings;
pub mod text;
pub mod trash_job;
pub mod websocket;
