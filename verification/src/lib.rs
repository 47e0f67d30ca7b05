//! PixHub serves a collection of pictures and videos from a disk over HTTP.
//!
//! The library holds what the server decides. It does no I/O of its own: questions to the
//! database are [`files::Statement`] values, times are nanoseconds that the caller reads
//! from its clock, and each handler is a few steps that take what the database or the disk
//! gave back and say what is next. The server around it is in `app/`.
//!
//! - [`config`], [`headers`], [`request`], [`range`]: what was asked.
//! - [`rate`], [`sessions`]: who may ask how often, and what a visitor was shown.
//! - [`files`], [`like`], [`filename`], [`catalog`]: the table of files, the searches in it,
//!   and how it follows the disk.
//! - [`pixiv`], [`plus`], [`media`], [`links`]: the handlers.
//! - [`answers`], [`error`], [`reply`], [`json`]: what is answered.
//! - [`path`], [`percent`], [`text`], [`table`]: what the others are made of.
pub mod answers;
pub mod catalog;
pub mod config;
pub mod error;
pub mod filename;
pub mod files;
pub mod headers;
pub mod json;
pub mod like;
pub mod links;
pub mod media;
pub mod path;
pub mod percent;
pub mod pixiv;
pub mod plus;
pub mod range;
pub mod rate;
pub mod reply;
pub mod request;
pub mod sessions;
pub mod table;
pub mod text;
