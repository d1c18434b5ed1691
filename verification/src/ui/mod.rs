//! Observer-side pieces consumed by the user interface. The terminal
//! rendering itself is a host concern and lives outside the library.

pub mod notifications;

pub use notifications::Notifications;
