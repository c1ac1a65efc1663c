//! A load-aware proxy in front of a model server: which requests pass, which answers are
//! watched, and which models are unloaded.
#![allow(unused_imports)]

pub mod chat;
pub mod clock;
pub mod config;
pub mod endpoint;
pub mod haywire;
pub mod load;
pub mod monitor;
pub mod proxy;
pub mod stream;
pub mod telemetry;
pub mod text;
