//! Core of a desktop file manager: directory enumeration, per-view listing
//! with filter/sort presentation transforms, navigation history, selection
//! and clipboard state, and copy/move transfer jobs with aggregated,
//! monotone progress reporting and cooperative cancellation.
//!
//! The library is pure state and logic: the host performs the actual
//! filesystem reads, writes and copies and feeds their outcomes back in as
//! plain values.

pub mod entry;
pub mod enumerate;
pub mod history;
pub mod listing;
pub mod registry;
pub mod selection;
pub mod text;
pub mod transfer;
pub mod view;
