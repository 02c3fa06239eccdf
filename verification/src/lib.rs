//! Photo Publisher: the local gallery pipeline and the integrated publication.
//!
//! The local pipeline makes previews and downloads of the photos of a project,
//! writes `gallery.json` and `state.json` as a pair, and commits the pair through
//! a journal, so that a crash at any step is recovered on the next run
//! ([`gallery`], [`preview`], [`publish`], [`journal`], [`steps`], [`recovery`],
//! [`generations`]).
//!
//! The integrated publication binds what the pipeline committed to what should
//! stand remotely, compares that with a ledger of what was confirmed before, and
//! carries out the difference: storage first, then the repository, then hosting
//! ([`committed`], [`site`], [`manifest`], [`bundle`], [`inventory`], [`ledger`],
//! [`planner`], [`executor`], [`repository`], [`hosting`], [`coordinator`]).
//!
//! Files, network and providers stay with the caller. The machines name the next
//! action; the caller performs it and hands back what was observed.
//!
//! Four modules state what holds across the others: [`crash`] for interrupted
//! and repeated publications, [`convergence`] for plans that have been carried
//! out, [`handoff`] for what the pipeline hands to the publication, and
//! [`sealing`] for records that were altered. [`laws`] states what each operation
//! promises of its inputs and results.

use vstd::prelude::*;

pub mod bundle;
pub mod committed;
pub mod config;
pub mod convergence;
pub mod coordinator;
pub mod crash;
pub mod digest;
pub mod events;
pub mod executor;
pub mod file_source;
pub mod gallery;
pub mod generations;
pub mod handoff;
pub mod hosting;
pub mod inventory;
pub mod journal;
pub mod json;
pub mod laws;
pub mod ledger;
pub mod manifest;
pub mod paths;
pub mod planner;
pub mod preview;
pub mod provider;
pub mod public_url;
pub mod publish;
pub mod recovery;
pub mod repository;
pub mod sealing;
pub mod sequences;
pub mod site;
pub mod steps;
pub mod text;

verus! {

} // verus!
