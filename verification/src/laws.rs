//! What holds of the table, the dispatcher and the watcher taken together.

pub mod announcements;
pub mod events;
pub mod handles;
pub mod plans;
pub mod toggles;
