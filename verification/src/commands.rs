//! The decision core of each command: every choice a command makes is a pure
//! function here, verified against the stores' models; performing the chosen
//! file, network and process work is the caller's business.
pub mod alias;
pub mod install;
pub mod registry;
pub mod run;
pub mod uninstall;
pub mod upgrade;
pub mod use_version;
