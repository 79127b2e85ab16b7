use vstd::prelude::*;

verus! {

/// The application's command-line arguments: the path of the input
/// file holding the transaction log.
#[derive(Debug)]
pub struct Cli {
    /// The path to the input file containing transactions.
    pub input: String,
}

} // verus!
