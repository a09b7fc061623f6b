//! The service: what it knows, and what every request and event makes it do.
//!
//! [`model`] says what the state becomes and which effects follow; [`machine`] and
//! [`handlers`] compute it; [`laws`] states what holds of all of it, and [`history`] what holds
//! over any sequence of steps. [`requests`], [`changes`], [`answers`] and [`promises`] say of each
//! request and report which effects follow and what changes.
pub mod answers;
pub mod changes;
pub mod handlers;
pub mod history;
pub mod laws;
pub mod machine;
pub mod model;
pub mod promises;
pub mod requests;
