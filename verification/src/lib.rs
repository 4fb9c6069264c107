//! Renders a small set of named prompt fields (Role, Task, Context,
//! Constraints) into one string, in one of several plain-text layouts.
//!
//! * [`field_map`] holds the fields: a mapping from names to raw values.
//! * [`prompt_styles`] holds the layouts and the rule by which each of them
//!   renders a mapping, with the laws that hold of every rendering.
//! * [`text`] holds the character and line primitives underneath.
//! * [`command`] is the entry point that an application calls.

pub mod command;
pub mod field_map;
pub mod prompt_styles;
pub mod text;
