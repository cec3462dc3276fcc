//! Declarative management of a tree of Git checkouts under one root directory.
//!
//! A configuration lists the repositories that should exist, each by a name
//! of the form `<host>/<org>/<repo>`. A reconciliation pass compares that list
//! with the checkouts found on disk and decides what to clone and what to
//! remove. This library holds the decisions; the caller performs the file
//! system and network operations that the decisions ask for.
pub mod command;
pub mod config;
pub mod converge;
pub mod credentials;
pub mod name;
pub mod path;
pub mod plan;
pub mod reconcile;
pub mod repo;
pub mod report;
pub mod root;
pub mod scan;
pub mod seqs;
