//! What the command line hands the library.
//!
//! The argument parsing itself, and the fallback of opening an
//! editor for the user to write a configuration, are I/O of the
//! driving process; it converts what it gathered into this plain
//! form.

use vstd::prelude::*;

use crate::config::Config;

verus! {

/// The command line's result: a configuration, when one was given
/// as an argument.
pub struct Cli {
    /// The configuration read from the file named on the command
    /// line, already validated; absent when no file was named, in
    /// which case the driver asks for one interactively.
    pub config: Option<Config>,
}

} // verus!
