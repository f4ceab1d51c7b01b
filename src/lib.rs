//! An interactive pager for the diagnostics that cargo streams as JSON.
//!
//! The library holds the logic: choosing which streamed messages become
//! diagnostics, the navigation state machine of the pager, and the layout of
//! each frame. Reading the subprocess, reading keys and writing to the
//! terminal are left to the caller.

pub mod text;
pub mod collect;
pub mod pager;
