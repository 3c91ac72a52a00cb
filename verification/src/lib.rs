//! Fundi watches building sites: a camera frame comes in, a safety rule that is broken becomes an
//! incident, and an incident is attested on a chain.
//!
//! This crate holds every decision of the service, with its proof: which detections fire
//! (`rules`, `rules_laws`), what a model's report amounts to (`vision`), what rows and failures of
//! the database mean (`db`), what is minted and when that counts (`attestation`), what clients are
//! answered (`routes`) and what the service is started with (`config`). `picture` and `abi` tell
//! apart what the readers of pictures and of contract interfaces must not be given; `json` and
//! `abi_type` serve the latter.
//!
//! The modules whose names end in `_laws` state what holds of calls of these functions, one call or
//! several, in terms of what goes in and what comes out.

use vstd::prelude::*;

pub mod abi;
pub mod abi_laws;
pub mod abi_type;
pub mod attestation;
pub mod attestation_laws;
pub mod config;
pub mod config_laws;
mod debounce;
pub mod db;
pub mod db_laws;
pub mod engine_laws;
pub mod ids;
pub mod json;
pub mod picture;
pub mod picture_laws;
pub mod routes;
pub mod routes_laws;
pub mod rules;
pub mod rules_laws;
pub mod text;
pub mod time;
pub mod value_laws;
pub mod vision;
