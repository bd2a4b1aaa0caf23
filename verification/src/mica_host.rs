//! The boundary between the editor and the policy code that drives it.
//!
//! Which command a key runs, and what a command does, is for the policy code to
//! say. This side hands out names for buffers and views, tells what they are,
//! and takes in what the policy code asks for once it is checked.

pub mod bridge;
pub mod bridge_laws;
pub mod context;
pub mod context_laws;
pub mod decode;
pub mod decode_laws;
pub mod dispatch;
pub mod effect_laws;
pub mod effects;
pub mod events;
pub mod facts;
pub mod key_names;
pub mod layout;
pub mod names;
pub mod policy_laws;
pub mod source_laws;
pub mod source_provider;
pub mod syntax_policy;
pub mod units;
pub mod value;

pub use context::{MicaHost, MicaHostError};
pub use dispatch::MicaKeyResult;
pub use events::{
    MicaEvent, MicaEventBatch, MicaHostAction, MicaNativeAction, MicaPolicyFact,
    MicaPresentationEffect, MicaPromptUpdate, MicaSearchFinish, MicaSearchUpdate,
};
pub use key_names::normalized_key_sequence;
pub use source_provider::source_path;
