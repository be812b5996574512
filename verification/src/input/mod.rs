//! Input capture and injection: what is sent for an event, and what is injected
//! for it on the other side.

pub mod capture;
pub mod codec;
pub mod events;
pub mod keymap;
pub mod keynames;
pub mod inject;
pub mod uinput;
