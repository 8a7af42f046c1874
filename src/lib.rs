//! Reminder schedules for a chat bot: the config-code codec, the lookup of a
//! community's config message, paged community listing and the recurrence
//! decisions of the background scheduler.

pub mod decimal;
pub mod text;
pub mod codec;
pub mod store;
pub mod guilds;
pub mod schedule;
pub mod roster;
