//! What each command decides.
pub mod clean;
pub mod clean_laws;
pub mod list;
pub mod list_laws;
pub mod removal_laws;
pub mod remove;
pub mod remove_laws;
