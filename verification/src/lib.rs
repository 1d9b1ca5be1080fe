//! The rules of a small HTTP-to-DNS dynamic update service: which requests are
//! accepted, which DNS questions are asked, which update messages are sent and
//! what the client is told.

pub mod address;
pub mod config;
pub mod credential;
pub mod error;
pub mod exchange;
pub mod keyfile;
pub mod keyfile_laws;
pub mod laws;
pub mod message;
pub mod name;
pub mod record;
pub mod reply;
pub mod request_laws;
pub mod server;
pub mod session;
pub mod text;
pub mod text_laws;
