//! A pipeline for delimiter-separated text. Each line of the input is split
//! into fields, honouring a simple quote convention; the record is held to the
//! width of the first record, tried against filter rules, projected onto the
//! chosen columns and written as one line for the output delimiter.
//!
//! The library decides and computes; it neither reads nor writes. A caller
//! reads the lines, hands each one to [`pipeline::step`] together with the
//! state of the run, and carries out what the step returns. For output that is
//! split by a key column, [`sink::KeyedSink`] says when a file is to be opened.
//!
//! * [`text`]: characters, white space, trimming
//! * [`split`]: splitting a line, the quote convention ([`split::split_line`])
//! * [`sanitize`]: preparing a field for output ([`sanitize::sanitize_cell`])
//! * [`validate`]: the width rule and its three policies
//! * [`filter`]: filter rules
//! * [`project`]: output columns, output line, header line
//! * [`number`], [`ranges`]: reading column numbers and lists of numbers
//! * [`sink`]: routing rows to keyed files
//! * [`pipeline`]: the settings, the state and the step of a run
//! * [`run`]: what holds of a run as a whole
//! * [`error`]: the failures that end a run

pub mod error;
pub mod filter;
pub mod number;
pub mod pipeline;
pub mod project;
pub mod ranges;
pub mod run;
pub mod sanitize;
pub mod sink;
pub mod split;
pub mod text;
pub mod validate;
