//! The application: its state, what keys, mouse and engine events do to it, and
//! what it shows.

pub mod argument_laws;
pub mod boxes;
pub mod command;
pub mod commands;
pub mod control;
pub mod copy;
pub mod effect;
pub mod estimate;
pub mod event_laws;
pub mod events;
pub mod fetch;
pub mod history;
pub mod ids;
pub mod jobs;
pub mod key_laws;
pub mod keys;
pub mod life;
pub mod mouse;
pub mod output_laws;
pub mod pointer_laws;
pub mod prediction;
pub mod press_laws;
pub mod report_laws;
pub mod request;
pub mod screen_laws;
pub mod selection;
pub mod session;
pub mod session_laws;
pub mod slash;
pub mod slash_laws;
pub mod slash_run;
pub mod state;
pub mod stream;
pub mod stream_laws;
pub mod submit;
pub mod transcript;
pub mod transcript_laws;
pub mod upkeep;
pub mod usage_laws;
pub mod viewport;
pub mod wrap;
