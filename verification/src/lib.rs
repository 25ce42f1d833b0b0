//! Native C and C++ targets for a Cargo-like build tool, on a Unix host: paths are Unix
//! paths, whatever system a target is for.
pub mod arranged;
pub mod carried;
pub mod chosen;
pub mod command;
pub mod compiled;
pub mod config;
pub mod conventions;
pub mod database;
pub mod discover;
pub mod env;
pub mod filled;
pub mod fingerprint;
pub mod flagged;
pub mod fs;
pub mod included;
pub mod inferred;
pub mod layout;
pub mod link;
pub mod linked;
pub mod listed;
pub mod loaded;
pub mod manifest;
pub mod named;
pub mod native;
pub mod normalize;
pub mod order;
pub mod os_text;
pub mod outputs;
pub mod path;
pub mod plan;
pub mod planned;
pub mod profile;
pub mod profiled;
pub mod propagate;
pub mod refused;
pub mod rejoin;
pub mod report;
pub mod scripted;
pub mod settled;
pub mod spelled;
pub mod stamped;
pub mod targets;
pub mod text;
pub mod told;
pub mod toolchain;
pub mod tools;
pub mod units;
pub mod validate;
pub mod watched;
