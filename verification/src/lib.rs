//! Core of a typed client for a conversational-intent service.
//!
//! The service answers a text query with a loosely structured payload: an
//! optional intent name and a bag of named parameter values. This library
//! decodes such a payload onto a closed, caller-chosen set of intent variants:
//! it derives a canonical tag for every variant identifier, resolves the
//! reported name against those tags (falling back to a designated variant when
//! no name was reported), and checks the parameter bag against the selected
//! variant's declared fields. Everything here is pure computation; the
//! surrounding transport and credential handling live outside the library.

pub mod decode;
pub mod descriptor;
pub mod error;
pub mod request;
pub mod response;
pub mod tag;
pub mod value;
