//! Resolution of a user-supplied identifier into an account name that a
//! creation transaction can be built for.
//!
//! The library holds the decisions: the naming rules, the order in which the
//! configured networks are asked, and the session that reacts to the answers
//! of the user and of the networks. Prompts and network lookups are performed
//! by the caller, which feeds their results back as events.

pub mod account_id;
pub mod policy;
pub mod resolution;
pub mod guarantees;
pub mod new_account;
