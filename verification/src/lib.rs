//! Core logic of the grr desktop shell: configuration, workspace tracking,
//! notification bookkeeping, application search and launcher decisions.
//! The GTK front end drives these types and performs the drawing and I/O.

pub mod config;
pub mod events;
pub mod text;
pub mod niri;
pub mod monitors;
pub mod start_widget;
pub mod search;
pub mod notifications;
pub mod notification;
pub mod launcher;
pub mod clock;
