//! A bidirectional translator between a typed, in-memory logical query plan
//! and a portable, language-neutral relation-plan encoding.
//!
//! The producer walks a [`plan::Plan`] bottom-up and emits portable relation
//! nodes ([`plan::PRel`]), assigning stable integer anchors to every function
//! reference it meets on the way.  The consumer walks a portable plan and
//! rebuilds the logical tree, resolving anchors through the declaration list
//! and repairing column-name collisions with synthetic aliases.  Both
//! directions are specified against mathematical models of the two trees, so
//! the round-trip, determinism and error-reporting behaviour are proved, not
//! just tested.

pub mod error;
pub mod table_ref;
pub mod types;
pub mod ptypes;
pub mod codec;
pub mod literal;
pub mod registry;
pub mod expr;
pub mod expr_xlate;
pub mod plan;
pub mod producer;
pub mod consumer;
pub mod roundtrip;
