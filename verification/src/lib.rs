//! Rules, parsers and configuration logic of a chat-driven game-hall assistant.
pub mod administration;
pub mod card_games;
pub mod chat_text;
pub mod command;
pub mod config;
pub mod custom_workflow;
pub mod entertainment;
pub mod friend_delivery;
pub mod hall;
pub mod identity;
pub mod ports;
pub mod scan;
pub mod sorting;
pub mod text;
