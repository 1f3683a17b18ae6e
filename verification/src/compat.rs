//! The event-driven face of the service: a thread that runs the reactor and
//! takes commands over a channel.

pub mod event_loop;
