//! Form logic of a small desktop tool that prepares torrent uploads for a
//! private tracker: the category path, the attached images, the tags, the
//! validation of the form, the rows of the image table, the piece-length
//! heuristic, and the framing of the tracker's login request.
//!
//! Everything here works on plain values. Windows, dialogs, files and sockets
//! belong to the program built around this library.

pub mod text;
pub mod qtm_config;
pub mod category;
pub mod tag;
pub mod image;
pub mod dialog;
pub mod torrent;
pub mod qtm_networking;
pub mod password_prompt;
pub mod unwrap_trace;
pub mod file_dialog;
pub mod qtm;
pub mod selectable_table;
