//! Device drivers built on the queue and transport engine.
pub mod sound;
