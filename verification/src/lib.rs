//! Verified core of a local API-debugging and MITM capture proxy.
pub mod text;
pub mod error;
pub mod message;
pub mod lines;
pub mod http1;
pub mod chunked;
pub mod rules;
pub mod tls;
pub mod connect;
pub mod routing;
pub mod flow;
pub mod store;
pub mod handler;
pub mod ca;
pub mod api;
pub mod platform;
pub mod rpc;
pub mod aggregator;
pub mod dto;
pub mod executor;
pub mod intercept;
pub mod authority;
pub mod cli;
pub mod session;
