//! Logic of a launcher: a daemon that keeps lists of projects and
//! installed programs, and a popup that filters them by a typed query.
pub mod protocol;
pub mod text;
pub mod popup;
pub mod daemon;
pub mod config;
