//! Reactinator: a chat bot that reacts to messages with emoji on command.
//!
//! The library holds the bot's logic: the per-guild command tables and their
//! dispatch, the parsing of command options, the conversion of text into
//! emoji, and the tracker of reactions that the bot added on a user's behalf
//! and takes back when the user does not react in time.

pub mod add_reaction;
pub mod commands;
pub mod context;
pub mod reaction;
pub mod text;
pub mod text_to_reactions;
pub mod tracker;
