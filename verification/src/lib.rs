//! Closed-world verification of C declarations and of the Rust items lowered
//! from them.
//!
//! Two passes stand on either side of lowering. [`source_verifier`] checks the
//! C declarations that a generation request selects, together with the link
//! evidence gathered for them. [`projection_verifier`] checks the Rust items
//! that lowering produced. Each returns the first refusal it meets, and says
//! in its contract exactly which one that is.

pub mod declaration_laws;
pub mod error;
pub mod evidence;
pub mod lookup_laws;
pub mod position;
pub mod powers;
pub mod projection;
pub mod projection_laws;
pub mod projection_refusal_laws;
pub mod projection_rules;
pub mod projection_verifier;
pub mod refusal_laws;
pub mod request;
pub mod request_laws;
pub mod source;
pub mod source_laws;
pub mod source_rules;
pub mod source_verifier;
pub mod stack;
pub mod text;
