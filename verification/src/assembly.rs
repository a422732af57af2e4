//! Inline assembly, carried through untouched.

use vstd::prelude::*;
use crate::irtype::Type;
use crate::value::Value;

verus! {

/// An identifier as written in the source program.
#[derive(Clone, Debug, PartialEq, Eq)]
pub struct Ident {
    pub name: String,
}

/// One line of assembly.
#[derive(Clone, Debug, PartialEq, Eq)]
pub struct AsmInstruction {
    pub name: Ident,
    pub args: Vec<Ident>,
    pub immediate: Option<Ident>,
}

/// A register of an assembly block and, where it has one, the value it starts with.
#[derive(Clone, Debug, PartialEq, Eq)]
pub struct AsmArg {
    pub name: Ident,
    pub initializer: Option<Value>,
}

/// A list of assembly lines with the registers they use and the type they yield.
#[derive(Clone, Debug, PartialEq, Eq)]
pub struct AsmBlock {
    pub args_names: Vec<Ident>,
    pub body: Vec<AsmInstruction>,
    pub return_type: Type,
    pub return_name: Option<Ident>,
}

impl AsmBlock {
    /// An assembly block of the given registers, lines, result type and result register.
    pub fn new(
        args_names: Vec<Ident>,
        body: Vec<AsmInstruction>,
        return_type: Type,
        return_name: Option<Ident>,
    ) -> (block: AsmBlock)
        ensures
            block == (AsmBlock { args_names, body, return_type, return_name }),
    {
        AsmBlock { args_names, body, return_type, return_name }
    }

    /// The type of what the block yields.
    pub fn get_type(&self) -> (ty: Type)
        ensures
            ty == self.return_type,
    {
        self.return_type
    }
}

} // verus!
