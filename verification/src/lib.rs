//! A declarative query engine over software-repository metadata.
//!
//! Records (projects and their paths, commits, users and snapshots) are
//! filtered, sorted, sampled, grouped and projected by pipelines built from a
//! closed predicate grammar, and the result is rendered as a table. Every
//! operation is specified over mathematical sequences and proved against that
//! specification.

pub mod calendar;
pub mod collection;
pub mod decimal;
pub mod export;
pub mod laws;
pub mod order;
pub mod pipeline;
pub mod predicate;
pub mod record;
pub mod report;
pub mod sample;
pub mod setjoin;
pub mod stage;
pub mod studies;
pub mod text;
pub mod value;
