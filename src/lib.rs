//! Round lifecycle, scoring and live session fanout for a small multiplayer
//! prediction game.

pub mod auth;
pub mod dispatch;
pub mod errors;
pub mod model;
pub mod picks;
pub mod projections;
pub mod registry;
pub mod scoring;
pub mod session;
pub mod slug;
pub mod store;
pub mod text;
pub mod validate;
