//! An append-only log writer that rolls over to a new file each UTC calendar day.
//!
//! The library holds the decisions: when to roll, what the dated file is called,
//! and what each line looks like. The caller performs the file operations.

mod clock;
mod date;
mod level;
mod line;
mod rotation;

pub use clock::{now_utc, Stamp};
pub use date::{file_name, CalDate};
pub use level::LogType;
pub use line::{format_record, terminate_line};
pub use rotation::{must_roll, LogState};
