//! A verified model of a minimal desktop-application shell: the record type
//! it exposes, a text codec for that record, and the startup decisions the
//! shell takes (which capability plugins to register, whether to attach the
//! conditional logger, what to do with the main window, and how a run ends).
//! The host GUI runtime itself stays outside this crate; the crate states and
//! proves what is decided, the surrounding program performs it.

pub mod bootstrap;
pub mod codec;
pub mod product;
pub mod window;
