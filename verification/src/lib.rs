//! The rules of a gateway that stands in front of a collection of services:
//! which hostnames it answers for and what each is bound to, who may reach a
//! service, how a session token is issued, read and refused, and how a
//! request is changed before it goes to an upstream.
//!
//! The library decides; it neither listens nor connects. What it is handed
//! and what it hands back are plain values.

pub mod admin_laws;
pub mod apps;
pub mod configuration;
pub mod cookies;
pub mod middlewares;
pub mod response;
pub mod routing_laws;
pub mod server;
pub mod session_laws;
pub mod text;
pub mod trusted;
pub mod users;
