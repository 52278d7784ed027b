//! Newline-delimited JSON records of network flows.
//!
//! `record` holds the flow record, `json` the pieces of JSON text that a
//! record is written with, `line` the line for one record, and `log` what a
//! sequence of appended lines makes of a log file.

pub mod json;
pub mod line;
pub mod log;
pub mod record;

pub use json::{decimal_string, is_number_text, quote};
pub use line::{encode_line, lemma_flags_in_order, lemma_packet_sizes_array, lemma_packet_sizes_null};
pub use log::{lemma_append_only_growth, lemma_lines_unique};

pub use record::{PersistenceFailure, VstpLog};
