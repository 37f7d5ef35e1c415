//! Commands of the bot: what each one computes for its reply.
pub mod card;
pub mod curr_borders;
pub mod curr_event;
pub mod last_borders;
pub mod last_event;
pub mod list_characters;
