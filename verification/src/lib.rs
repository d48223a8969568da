//! Verified core of the `python3` command filter.
//!
//! The library decides what a `python3` command line stands for, which process is started for
//! it, and what is shown of that process's output: the errors of a compilation, or the last
//! place and the error of a traceback. Starting processes, printing and exiting are left to the
//! program around it.

mod lemmas;

pub mod ansi;
pub mod compile_errors;
pub mod dispatch;
pub mod model;
pub mod process;
pub mod text;
pub mod text_laws;
pub mod traceback;
