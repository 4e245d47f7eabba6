//! What is running, and which processes stay untouched.
pub mod process_list;
pub mod process_tree;
pub mod active_window;
