//! The web dashboard's data: page models and the live log stream's markup.
pub mod routes;
pub mod sse;
