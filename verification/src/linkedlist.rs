//! Linked lists in their plainest form.

pub mod linkedstack;
