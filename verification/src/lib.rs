//! A small in-process fact machine.
//!
//! A [`State`] holds at most one fact per fact type. A transition wraps a
//! function together with the facts it requires and the facts it produces,
//! both read off the function's parameter and return types. A
//! [`StateMachine`] runs a transition only when every required fact is
//! present, and a [`Dictionary`] files transitions under names.

pub mod dictionary;
pub mod error;
pub mod parts;
pub mod state;
pub mod statemachine;
pub mod transition;
pub mod transition_dictionary;
pub mod truth;

pub use dictionary::Dictionary;
pub use error::TransitionError;
pub use parts::{Deconstructable, Requestable};
pub use state::State;
pub use statemachine::StateMachine;
pub use transition_dictionary::TransitionDictionary;
pub use truth::{fact_of, held, holds, is_payload_of, Id, Truth};
