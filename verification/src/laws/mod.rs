//! What the operations promise, stated of their inputs and results.

pub mod addresses;
pub mod bundles;
pub mod coordination;
pub mod desired;
pub mod gallery;
pub mod hosting;
pub mod journal;
pub mod ledgers;
pub mod lookup;
pub mod manifest;
pub mod messages;
pub mod plans;
pub mod project;
pub mod publication;
pub mod records;
pub mod recovery;
pub mod repository;
pub mod storage;
pub mod texts;
