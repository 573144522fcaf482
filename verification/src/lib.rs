//! A small authentication library: an in-memory credential store, signed
//! token issuance and verification (JSON Web Tokens over a shared secret),
//! cookie-header handling, and a server-side session store.

pub mod cookie;
pub mod errors;
pub mod guard;
pub mod jwt;
pub mod session;
pub mod user;
