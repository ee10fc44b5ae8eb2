//! Decisions of a console-reattaching launcher.
//!
//! A launcher of this kind is started in a console of its own, lets go of it,
//! joins the console of its parent, and runs the command that follows its own
//! name on the command line, handing the command's exit code on as its own.
//!
//! This library holds everything such a launcher decides: where its own name
//! ends in the raw command line and where the forwarded command begins, what
//! the usage text is, how a wait status is read, and in which order the
//! operating system is asked for what. The host program performs the requests
//! and reports what came of them.

pub mod units;
pub mod scan;
pub mod split;
pub mod status;
pub mod usage;
pub mod launch;
pub mod run;
