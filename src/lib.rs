//! Recipe records, weekly meal schedules and recipe document layout, with
//! their contracts proved by Verus.
pub mod text;
pub mod recipe;
pub mod codec;
pub mod codec_laws;
pub mod schedule;
pub mod layout;
pub mod layout_laws;
pub mod web;
pub mod files;
pub mod app_state;
