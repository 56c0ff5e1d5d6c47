//! Controller core of a device package-management console: the per-user
//! package table, the filters over it, the selection with its running
//! counters, and the folding of device-command outcomes back into the table.

pub mod package;
pub mod seqs;
pub mod selection;
pub mod filter;
pub mod message;
pub mod list;
pub mod dispatch;
pub mod table;
