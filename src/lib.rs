//! Reminder scheduling and command logic for a chat bot.
//!
//! The scheduler core decides, from events it is handed, what the surrounding
//! runtime must do next: sleep, query the store, deliver a notification or
//! delete a delivered record. The command modules hold the arithmetic and text
//! rules behind the bot's slash commands.
pub mod text;
pub mod color;
pub mod reminder;
pub mod due;
pub mod budget;
pub mod scheduler;
pub mod commands;
pub mod interaction;
