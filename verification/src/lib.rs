//! Declarative GitHub repository settings: the reconciliation rules.
//!
//! A configuration declares how repositories should be set up. The library
//! checks it, says which parts of the live state have to be read, plans the
//! differences, and turns a plan into requests. It performs no I/O: the caller
//! sends the requests and hands back the answers.

pub mod text;
pub mod keymap;
pub mod json;
pub mod order;
pub mod pairing;
pub mod compare;

pub mod config;
pub mod validate;
pub mod flake;

pub mod change;
pub mod github;
pub mod settings;
pub mod actions;
pub mod branches;
pub mod rulesets;
pub mod reading;
pub mod plan;

pub mod bodies;
pub mod requests;
pub mod replies;
pub mod apply;

pub mod cli;
pub mod display;

pub mod laws;
