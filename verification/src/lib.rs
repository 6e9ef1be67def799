//! Version resolution and activation core of a runtime version manager:
//! descriptor parsing, alias and resolution-cache bookkeeping, the
//! key/value configuration cascade, the remote catalog cache and the
//! activation decisions, all with verified contracts. File, network and
//! process work stays outside; the library computes on plain values.
pub mod cli;
pub mod commands;
pub mod configrc;
pub mod consts;
pub mod error;
pub mod meta;
pub mod semver_ops;
pub mod strutil;
pub mod utils;
pub mod version;
