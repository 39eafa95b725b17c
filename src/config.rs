use vstd::prelude::*;

verus! {

/// Run settings taken from the command line.
pub struct Config {
    pub transactions_path: String,
}

impl Config {
    /// The settings named by `args`, the program's arguments with the program
    /// name first: the transaction log is the first argument after it.
    pub fn new(args: &[String]) -> (r: Config)
        requires
            args@.len() >= 2,
        ensures
            r.transactions_path@ == args@[1]@,
    {
        let transactions_path = args[1].clone();
        Config { transactions_path }
    }
}

} // verus!
