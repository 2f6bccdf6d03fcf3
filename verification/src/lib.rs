//! The decisions of a launcher that starts QQ with a hook library in it, and of that library, which
//! changes code of a module so that recalled messages stay.
//!
//! What the system must do is done outside: a piece of work here is a state that names the call that
//! is due, and takes the call's outcome to reach the next state. Paths are held in the 16-bit units
//! in which the system spells them, addresses and handles as plain numbers.
pub mod hook;
pub mod inject;
pub mod launch;
pub mod locate;
pub mod memory;
pub mod message;
pub mod module_search;
pub mod patch;
pub mod pattern;
pub mod reapply;
pub mod registry;
pub mod text;
pub mod wide;
pub mod win32;
