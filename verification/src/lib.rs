//! A verified core for a group-chat bot that talks to a DeepInfra chat model:
//! the conversation history kept per group, the request handed to the model,
//! and the decisions the bot takes on group events.

pub mod bot;
pub mod deepinfra;
pub mod random;
pub mod sensitive;
pub mod text;
