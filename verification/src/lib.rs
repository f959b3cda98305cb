//! Library core of a DRBD event reactor: a verified model of the resource
//! state kept per node, the parser for the kernel tool's event lines, the
//! reconciler that turns raw events into change updates for plugins, the
//! promoter's decision rules, and the generators for the service manager's
//! unit files.

pub mod config;
pub mod drbd;
pub mod drbdstatus;
pub mod events;
pub mod matchable;
pub mod plugin;
pub mod reconciler;
pub mod strutil;
pub mod systemd;
