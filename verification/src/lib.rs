//! Startup `PATH` repair.
//!
//! A desktop process launched from a graphical shell does not inherit the
//! `PATH` customizations of the user's interactive shell, so spawning an
//! external command-line tool later may fail. This library computes a
//! corrected `PATH` value: a fixed list of well-known installation
//! directories is prepended to the original value, skipping every candidate
//! that is already present, and keeping the original value verbatim as the
//! suffix. The process-environment read and write themselves are left to the
//! embedding application; the library works on plain strings.

pub mod laws;
pub mod repair;
pub mod shell;
pub mod substring;
