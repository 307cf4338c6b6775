//! Builds spaced-repetition deck rows from a pair of temporally aligned
//! subtitle tracks: a "foreign" track (the language being studied) and a
//! "native" track. The library derives a per-row sort key from the source
//! filename and a timestamp, computes a previous/current/next context window
//! over the aligned rows, pads each subtitle's time range before media
//! extraction is requested, and encodes the rows as a tabular text buffer.
//! All file writes and media extraction belong to an outside collaborator;
//! the export session module tracks the handshake with it.

pub mod context;
pub mod csv_out;
pub mod episode;
pub mod notes;
pub mod session;
pub mod subtitle;
pub mod time_range;
pub mod timestamp;
