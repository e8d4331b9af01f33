//! A remapping engine that turns an 8x8 pad controller into a multi-channel
//! just-intonation keyboard.

pub mod dispatch;
pub mod engine;
pub mod layout;
pub mod modifiers;
pub mod pitch;
pub mod voices;
