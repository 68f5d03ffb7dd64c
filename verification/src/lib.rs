//! Decision logic of an MCP gateway: bearer-token validation, credential
//! resolution, configuration handling and the stdio bridge protocol.

pub mod text;
pub mod names;
pub mod interpolate;
pub mod secret;
pub mod authentication;
pub mod server;
pub mod config;
pub mod authorise;
pub mod challenge;
pub mod claims;
pub mod json;
pub mod validator;
pub mod jwks;
pub mod jwt;
pub mod digest;
pub mod introspection;
pub mod discovery;
pub mod metadata;
pub mod order;
pub mod middleware;
pub mod setup;
pub mod strategy;
pub mod trust;
pub mod chain;
pub mod oauth;
pub mod resolver;
pub mod handshake;
pub mod bridge;
pub mod connection;
pub mod load;
pub mod console;
pub mod references;
pub mod memory;
pub mod crypto;
pub mod cors;
pub mod reload;
pub mod serve;
