//! Core logic of a Discord bot: text replies, colour averaging, osu! and
//! TETR.IO result handling, with the network and Discord plumbing kept outside.

pub mod colour;
pub mod decimal;
pub mod jobs;
pub mod osu;
pub mod random_text;
pub mod replies;
pub mod tetrio;
pub mod text;
