//! A minimal deterministic contract execution unit.
//!
//! The library models one isolated contract: a durable state (a counter and a
//! per-identity list of file references), ledger-originated commands that
//! mutate that state, and read-only queries that are answered from it.  Command
//! application is deterministic and replayable; queries never change the state
//! and never fail loudly: every failure is returned as a structured error
//! response.  How commands are ordered, authenticated and delivered, and how
//! the types are serialized across a process boundary, is the surrounding
//! runtime's concern.

pub mod contract;
pub mod laws;
pub mod types;
