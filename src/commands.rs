//! The rules behind the bot's slash commands, without the chat transport.
pub mod res;
pub mod ltrange;
pub mod color;
pub mod levelinfo;
pub mod snowflake;
pub mod remindme;
pub mod probability;
pub mod quote;
pub mod category;
pub mod mhw;
pub mod moderation;
pub mod time;
pub mod general;
pub mod trivia;
