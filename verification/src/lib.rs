//! Durable agent and session storage: a crash-safe store layout, its recovery and its publication.

pub mod actor;
pub mod agent_chain;
pub mod agent_laws;
pub mod barrier;
pub mod bootstrap;
pub mod catalog;
pub mod cleanup_laws;
pub mod cleanup_plan;
pub mod cleanup_run;
pub mod collection_scan;
pub mod crash;
pub mod digits;
pub mod entity_scan;
pub mod error;
pub mod event;
pub mod execution;
pub mod fork;
pub mod fork_laws;
pub mod generation;
pub mod generation_scan;
pub mod head;
pub mod history;
pub mod idmap;
pub mod ids;
pub mod lifecycle;
pub mod listing;
pub mod location;
pub mod name_laws;
pub mod open_error;
pub mod opening;
pub mod opening_laws;
pub mod physical;
pub mod physical_laws;
pub mod publication;
pub mod publication_check;
pub mod publication_laws;
pub mod publishing_laws;
pub mod recovery;
pub mod recovery_laws;
pub mod reservation;
pub mod reservation_laws;
pub mod root_laws;
pub mod root_scan;
pub mod scaffold;
pub mod scan_errors;
pub mod scan_laws;
pub mod session_chain;
pub mod session_error;
pub mod session_laws;
pub mod verdict_laws;
