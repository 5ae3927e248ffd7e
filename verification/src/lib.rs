//! Deterministic protocol-fixture logic: configuration, readiness, the bounded
//! event log, HTTP fixture helpers, OpenAPI metadata and socket framing rules.

pub mod text;
pub mod number;
pub mod config;
pub mod readiness;
pub mod events;
pub mod multimap;
pub mod multipart;
pub mod headers;
pub mod openapi;
pub mod media;
pub mod behavior;
pub mod auth;
pub mod representations;
pub mod streaming;
pub mod echo;
pub mod sockets;
pub mod thrift;
pub mod grpc;
pub mod service;
pub mod control;
pub mod graphql;
pub mod mqtt;
