//! Startup parameters. The one required parameter is the identifier of
//! the interface to observe; parsing the command line and printing usage
//! stay with the embedding process, which hands the result over as plain
//! values.

use vstd::prelude::*;

verus! {

/// The parsed startup parameters.
#[derive(Debug)]
pub struct Opts {
    /// The interface to listen on.
    pub interface: String,
}

} // verus!
