//! A scripted HTTP request runner: layered variables, `${name}` templating,
//! script hooks and the sequential scenario engine, as a verified library.
//!
//! The engine does no input and no output. A run is a `runner::Runner`: it
//! is told what happened (`protocol::Event`) and says what is to be done next
//! (`protocol::Action`): show a notice, persist a variable, send a call. The
//! program around it carries the actions out.

pub mod cli;
pub mod config;
pub mod protocol;
pub mod request;
pub mod runner;
pub mod scripting;
pub mod storage;
pub mod templating;
pub mod text;
pub mod traces;
pub mod vars;
