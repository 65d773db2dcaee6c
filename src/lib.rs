//! Voice-session control core of a chat bot: a per-guild session registry,
//! a playback queue, and the event subscriptions that react to track ends and
//! periodic timers. Every decision is a verified function from state and input
//! to next state and reply; performing the backend calls is left to the caller.

pub mod commands;
pub mod events;
pub mod laws;
pub mod queue;
pub mod registry;
pub mod session;
