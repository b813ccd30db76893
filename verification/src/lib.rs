//! A small post-feed library: a router that maps URL paths to views, form
//! state for the home, compose and login screens, a key-value store model
//! for the browser-side persistence, and a verified codec for the stored
//! post list.

pub mod post;
pub mod strutil;
pub mod codec;
pub mod store;
pub mod router;
pub mod forms;
