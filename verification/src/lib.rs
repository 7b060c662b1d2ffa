//! Core of a static file server with live reload: the request pipeline's
//! decisions, the fan-out bus behind the reload stream, and the shaping of
//! change notifications, each with a machine-checked contract.

pub mod auth;
pub mod b64;
pub mod broadcast;
pub mod compress;
pub mod config;
pub mod explorer;
pub mod handler;
pub mod http1;
pub mod logger;
pub mod paths;
pub mod pipeline;
pub mod serve;
pub mod sse;
pub mod text;
pub mod watcher;
