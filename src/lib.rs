//! The credential and session layer of an account service: Argon2 password
//! hashing, signed access/refresh tokens, session cookies, the authentication
//! guard of protected routes, and the decisions of the session service.
//!
//! Each component is a verified function over plain values. The user store and
//! the HTTP server are outside collaborators that call into it.
pub mod clock;
pub mod config;
pub mod cookie;
pub mod errors;
pub mod guard;
pub mod jwt;
pub mod model;
pub mod password;
pub mod payload;
pub mod service;
pub mod text;
