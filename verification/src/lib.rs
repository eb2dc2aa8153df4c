//! Adapter between an external command-line task store and a typed task
//! model: field codecs, the task record model, the mutation action builder,
//! and the decision logic of the create/update protocol.

mod chars;
pub mod api;
pub mod configuration;
pub mod ids;
pub mod jsontext;
pub mod metadata;
pub mod routes;
pub mod task;
pub mod taskwarrior;
pub mod timestamp;

