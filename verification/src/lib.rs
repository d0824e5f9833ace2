//! Small verified building blocks: a lock-guarded shared stack, a key/value
//! user repository with two storage-binding strategies, a command dispatch
//! layer over the repository, a validated email newtype, a random-choice
//! container, and configuration-path resolution.

pub mod command;
pub mod config;
pub mod email;
pub mod random;
pub mod repository;
pub mod stack;
