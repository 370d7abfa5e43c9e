//! A loaded binary, as far as decompiling it needs to know it.

use vstd::prelude::*;

use crate::address::Address;
use crate::architecture::Architecture;

verus! {

/// A function that the binary names.
#[derive(Debug)]
pub struct FunctionSymbol {
    pub address: Address,
    pub name: String,
}

impl FunctionSymbol {
    /// Where the function is.
    pub fn address(&self) -> (address: Address)
        ensures
            address == self.address,
    {
        self.address
    }

    /// What it is called.
    pub fn name(&self) -> (name: &str)
        ensures
            name@ == self.name@,
    {
        self.name.as_str()
    }
}

/// A loaded binary.
#[derive(Debug)]
pub struct Binary {
    pub architecture: Architecture,
    pub entry: Option<Address>,
    pub symbols: Vec<FunctionSymbol>,
}

impl Binary {
    /// The architecture of its code.
    pub fn architecture(&self) -> (architecture: Architecture)
        ensures
            architecture == self.architecture,
    {
        self.architecture
    }

    /// Where it starts, if it says so.
    pub fn entry(&self) -> (entry: Option<Address>)
        ensures
            entry == self.entry,
    {
        self.entry
    }

    /// The functions that it names.
    pub fn symbols(&self) -> (symbols: &[FunctionSymbol])
        ensures
            symbols@ == self.symbols@,
    {
        self.symbols.as_slice()
    }
}

} // verus!
