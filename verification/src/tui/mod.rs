//! The interactive worktree picker and the screen behind `gwx clean`.
pub mod clean_screen;
pub mod dialog;
pub mod dialog_laws;
pub mod draw;
pub mod draw_laws;
pub mod hint_laws;
pub mod hints;
pub mod key_laws;
pub mod keys;
pub mod pick;
pub mod picker;
pub mod picker_laws;
pub mod screen;
pub mod screen_laws;
pub mod status;
pub mod status_laws;
pub mod terminal;
pub mod terminal_laws;
