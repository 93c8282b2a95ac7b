//! Sorting a directory tree into place, safely.
//!
//! A listing of files is analysed for directories that must stay whole
//! ([`boundary`]), matched against prioritised rules ([`rule_engine`]),
//! turned into a batch of moves ([`planner`]) and carried out step by step
//! with a history that makes each batch reversible ([`executor`]).
//!
//! The library never touches the file system. Whoever uses it gathers the
//! facts, takes the steps that a run asks for, and reports how they went.
//! [`disk`] shows, on a file system in the small, that rolling back a
//! completed batch puts every file back where it was.
//!
//! Paths are text with `/` between components ([`paths`]); points in time
//! are seconds since the Unix epoch; a confidence is a number of millionths.

pub mod text;
pub mod paths;
pub mod clock;
pub mod digest;
pub mod ids;
pub mod models;
pub mod boundary;
pub mod rule_engine;
pub mod edit;
pub mod planner;
pub mod sizes;
pub mod executor;
pub mod disk;
pub mod scanner;
pub mod semantic;
pub mod endpoint;
pub mod table;
