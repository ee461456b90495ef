//! A shelf of short-lived offers shared between the devices of one person.
//!
//! A device offers text, a file or a folder by announcing a small descriptor to
//! its peers.  A peer keeps the announcement as a card and pulls the content
//! only when somebody activates that card.  This crate holds the rules of that
//! exchange; reading sockets, files and the clipboard is left to its callers.

pub mod acceptance_laws;
pub mod activation;
pub mod activation_laws;
pub mod announce;
pub mod arrival_laws;
pub mod bootstrap;
pub mod cli;
pub mod client;
pub mod clipboard;
pub mod commitment_laws;
pub mod connection;
pub mod content_laws;
pub mod controller;
pub mod coordinator;
pub mod delivery_laws;
pub mod desktop;
pub mod destination;
pub mod digest;
pub mod exchange_laws;
pub mod failure;
pub mod failure_laws;
pub mod identity;
pub mod ids;
pub mod local_control;
pub mod manifest;
pub mod manifest_laws;
pub mod memory_store;
pub mod model;
pub mod name_laws;
pub mod net;
pub mod net_error;
pub mod offer;
pub mod offer_laws;
pub mod offer_source;
pub mod operation_laws;
pub mod order;
pub mod order_laws;
pub mod outcome;
pub mod outcome_laws;
pub mod path;
pub mod payload;
pub mod publish;
pub mod publish_laws;
pub mod receive;
pub mod receive_laws;
pub mod receiver;
pub mod report;
pub mod report_laws;
pub mod reservation;
pub mod run_laws;
pub mod send;
pub mod service;
pub mod settings;
pub mod shelf_changes;
pub mod shelf_laws;
pub mod side_effect;
pub mod source;
pub mod source_laws;
pub mod source_plan;
pub mod staging;
pub mod start_laws;
pub mod store;
pub mod stream;
pub mod surface_laws;
pub mod text;
pub mod text_laws;
pub mod tool_laws;
pub mod transfer;
pub mod trust;
pub mod trust_laws;
pub mod value_laws;
pub mod view_laws;
pub mod walk;
pub mod walk_laws;
pub mod wire;
pub mod word_laws;
