//! Inventory and cleanup of regenerable build artifacts in a development
//! workspace: the detection catalogue, the report model, the git and
//! deletion bookkeeping, and the request decisions of the local server.

pub mod text;
pub mod catalog;
pub mod seqs;
pub mod scanner;
pub mod report;
pub mod server;
pub mod i18n;
pub mod calendar;

pub mod gates;
