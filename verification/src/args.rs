//! What the console is started with.
use vstd::prelude::*;
use vstd::string::StringExecFns;

verus! {

/// The arguments of the console.
#[derive(Debug, PartialEq, Eq)]
pub struct Args {
    /// The file that holds the inventory.
    pub inventory: String,
}

impl Args {
    /// The arguments where none were given: the inventory is read from
    /// `inventory.taco.yml`.
    pub fn new() -> (args: Self)
        ensures
            args.inventory@ == "inventory.taco.yml"@,
    {
        Args { inventory: String::from_str("inventory.taco.yml") }
    }
}

} // verus!
