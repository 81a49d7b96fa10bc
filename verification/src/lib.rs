//! The state and decision logic of a terminal chat front end: the prompt
//! composer, the modal dialogs, the transcript and the key, mouse and engine
//! event state machines that tie them together.

pub mod app;
pub mod banner_box;
pub mod chrome;
pub mod composer;
pub mod context_menu;
pub mod context_pane;
pub mod daemon_prompt;
pub mod decimal;
pub mod dialog;
pub mod diff;
pub mod diff_laws;
pub mod editing;
pub mod editor;
pub mod editor_laws;
pub mod geometry;
pub mod key;
pub mod launch;
pub mod nav;
pub mod paste;
pub mod style;
pub mod tag;
pub mod text;
pub mod text_laws;
pub mod textfield;
pub mod theme;
pub mod token_laws;
pub mod view_laws;
pub mod width;
