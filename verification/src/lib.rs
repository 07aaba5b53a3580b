//! A verified model of a small multi-user application: users sign up and log
//! in with session cookies, own "apps" (integration records) and "repos"
//! (collections of apps), and every mutation is guarded either by the session
//! or by re-submitted credentials checked against a one-way password hash.
//!
//! The durable state lives in a [`store::Store`] value; route handlers are
//! functions from the store and the request's fields to the new store and a
//! structured outcome. Password hashing, e-mail validation and HTML/URL
//! sanitization are delegated to outside crates behind narrow trusted
//! wrappers; everything else is verified.

pub mod apps;
pub mod common;
pub mod crypt_eq;
pub mod repos;
pub mod sessions;
pub mod store;
pub mod text;
pub mod users;
