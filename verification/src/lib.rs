//! Platform-neutral menu, tray and notification models with a verified
//! reconciliation engine: normalization of menu bars into platform-canonical
//! shape, structural (shape) equality of menu trees, minimal in-place diffing
//! of a live native menu against a new model, identifier mapping between
//! application command ids and native menu tags, and the bookkeeping for
//! notification activation delivery.

pub mod command;
pub mod diff;
pub mod errors;
pub mod idmap;
pub mod macos;
pub mod menu;
pub mod menubar;
pub mod normalize;
pub mod notify;
pub mod reconcile;
pub mod notification;
pub mod shape;
pub mod shortcut;
pub mod tray;
pub mod windows;

pub use command::CommandId;
