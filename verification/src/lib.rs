//! Configuration, wire framing and request handling rules of the media
//! intelligence worker.

pub mod activity;
pub mod config;
pub mod direct;
pub mod exchange;
pub mod frame;
pub mod idle;
pub mod launch;
pub mod proxy;
pub mod reply;
pub mod routes;
pub mod rpc;
pub mod text;
