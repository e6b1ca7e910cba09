//! Input decoding: turning one iteration's events into state changes.

pub mod event_handler;
