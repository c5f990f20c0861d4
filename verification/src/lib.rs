//! Release queries, configuration rules, version arguments and proxy settings
//! of a Node.js version manager, with their contracts proved by Verus.

pub mod command_args;
pub mod config;
pub mod model;
pub mod releases;
pub mod stream;
pub mod system_proxy;
pub mod text;
