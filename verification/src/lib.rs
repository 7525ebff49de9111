//! Core of a minimal durable workflow orchestrator.
//!
//! Workflows (coordinators) and activities (effectful leaf operations) are
//! registered by name. Every lifecycle transition of a workflow run or an
//! activity run is persisted as an append-only event, which makes failed
//! workflow runs rerunnable with previously successful activity results
//! short-circuited. This crate holds the event store, the server-side
//! handling of worker events, the worker-side decision logic, and the wire
//! protocol, all verified; process plumbing (HTTP, task scheduling) sits
//! outside.

use vstd::prelude::*;

mod trusted;

pub mod activity;
pub mod inmemory_db;
pub mod server;
pub mod text;
pub mod uuid_text;
pub mod wire;
pub mod worker;
pub mod worker_events;
pub mod workflow;
