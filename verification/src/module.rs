//! Modules: collections of functions.

use vstd::prelude::*;
use crate::function::Function;

verus! {

/// The functions of one program, in the order in which they were added.
#[derive(Clone, Debug, PartialEq, Eq)]
pub struct Module {
    pub name: String,
    pub functions: Vec<Function>,
}

impl Module {
    /// A module without functions.
    pub fn new(name: String) -> (module: Module)
        ensures
            module.name == name,
            module.functions@.len() == 0,
    {
        Module { name, functions: Vec::new() }
    }

    /// Adds a function to the module.
    pub fn add_function(&mut self, function: Function)
        ensures
            final(self).name == old(self).name,
            final(self).functions@ == old(self).functions@.push(function),
    {
        self.functions.push(function);
    }

    /// The number of functions of the module.
    pub fn num_functions(&self) -> (n: usize)
        ensures
            n == self.functions@.len(),
    {
        self.functions.len()
    }

    /// The function at `index`, if the module has that many.
    pub fn get_function(&self, index: usize) -> (found: Option<Function>)
        ensures
            found == (if index < self.functions@.len() {
                Some(self.functions@[index as int])
            } else {
                None
            }),
    {
        if index < self.functions.len() {
            Some(self.functions[index])
        } else {
            None
        }
    }
}

} // verus!
