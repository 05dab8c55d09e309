//! Verified core of a Nix helper: installable and target parsing, command
//! argument assembly, build-plan forecasts, garbage-collection root
//! classification, remote host handling and privilege-elevation policy.

mod text;
pub mod num;
pub mod attr;
pub mod paths;
pub mod installable;
pub mod runtime;
pub mod target;
pub mod forecast;
pub mod pattern;
pub mod order;
pub mod clean;
pub mod elevation;
pub mod command;
pub mod nix_command;
pub mod remote;
pub mod nix_options;
pub mod nix_info;
pub mod os;
pub mod info;
pub mod rollback;
pub mod nixos;
pub mod search;
pub mod request;
pub mod config;
