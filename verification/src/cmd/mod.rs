pub mod caption;
pub mod clean;
pub mod common;
pub mod event_map;
pub mod events;
pub mod jitter;
