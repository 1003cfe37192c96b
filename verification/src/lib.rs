//! Relay-side track switching and publisher-side adaptive media packaging for
//! Media over QUIC.

#![allow(unused_imports)]

pub mod adaptive;
pub mod cache;
pub mod cli;
pub mod client_manager;
pub mod connection;
pub mod decimal;
pub mod decoder;
pub mod encoder;
pub mod events;
pub mod exchange;
pub mod holding_subscribes;
pub mod joining;
pub mod json;
pub mod keyed;
pub mod ladder_text;
pub mod messages;
pub mod metadata;
pub mod model;
pub mod payload;
pub mod probe;
pub mod publisher;
pub mod replay;
pub mod requests;
pub mod status;
pub mod streams;
pub mod subscribe_handler;
pub mod subscription;
pub mod switch_delivery;
pub mod switch_guard;
pub mod switch_handler;
pub mod switch_selection;
pub mod switch_transition;
pub mod text;
pub mod track;
pub mod track_cache;
pub mod track_name;
pub mod upstream;
pub mod varint;
pub mod video;
