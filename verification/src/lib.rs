//! Reusable sets of environment variables, bound to folders and rendered as
//! `.env` content.

pub mod components;
pub mod config;
pub mod input;
pub mod mapping;
pub mod run;
pub mod text;
pub mod util;
