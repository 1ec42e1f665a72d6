//! Linked containers with machine-checked contracts.
//!
//! The central structure is [`linkeddeque::LinkedDeque`], a doubly linked
//! deque whose nodes live in an index-addressed arena. Around it sit a
//! singly linked stack and a persistent, structurally shared list.

mod chain;
mod fmt;
pub mod fold;
pub mod linkeddeque;
pub mod linkedlist;
pub mod linkedrefcount;
pub mod linkedstack;
pub mod model;
pub mod util;
