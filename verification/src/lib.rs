//! Verified core logic of the octos phone client: reply fence safety,
//! card linting, A2App card text transforms, and the small state machines
//! behind the client screens.

pub mod text;
pub mod diagram_safety;
pub mod card_lint;
pub mod approvals;
pub mod coding;
pub mod login;
pub mod cards;
pub mod ama;
pub mod producers;
pub mod wav;
pub mod voice;
pub mod task_dock;
pub mod order;
pub mod content;
pub mod viewers;
pub mod sessions;
pub mod persisted;
pub mod prompts;
pub mod turns;
pub mod notify;
pub mod bootstrap;
pub mod apps;
pub mod chat;
pub mod approval_text;
pub mod connection;
