//! A verified core for a small random-number HTTP service: it resolves
//! the address to bind from its configuration sources, routes `POST
//! /random` requests, decodes a JSON distribution specification, draws a
//! sample, and encodes the response — mapping every failure to its HTTP
//! status.

pub mod config;
pub mod handler;
pub mod json;
pub mod query;
pub mod request;
pub mod respond;
pub mod sample;
