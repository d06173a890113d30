//! Message bookkeeping and command handling for a Discord chat bot.
//!
//! The library keeps the bot's memory of recent messages, decides how the bot
//! answers each gateway event, and renders the texts it posts.  Talking to
//! Discord itself is left to the caller: every decision is returned as a list
//! of [`bot::Action`]s to perform.

pub mod model;
pub mod text;
pub mod store;
pub mod memes;
pub mod chance;
pub mod replies;
pub mod bot;
pub mod laws;
