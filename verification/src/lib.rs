//! Activation/ordering core of a window-switcher overlay daemon.
//!
//! The daemon keeps a most-recently-used ordering of the windows that a
//! tiling compositor reports, and turns activation triggers and user
//! choices into presentation directives and compositor commands.  This
//! crate holds the verified core: the recency cache, the activation
//! state machine, and the bounded trigger mailbox.  Rendering, D-Bus
//! transport and the compositor socket live outside, in the surrounding
//! application.

pub mod controller;
pub mod trigger_channel;
pub mod window_cache;
