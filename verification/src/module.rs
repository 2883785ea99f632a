use vstd::prelude::*;

use crate::ast::{
    CastDeclaration, ConstantDefinition, FunctionDeclaration, PrimitiveDeclaration,
    StructDefinition,
};

verus! {

/// A parsed module: its declarations in source order, and whether it is the
/// distinguished core module that may declare primitives and casts.
pub struct Module {
    pub core: bool,
    pub primitives: Vec<PrimitiveDeclaration>,
    pub structs: Vec<StructDefinition>,
    pub casts: Vec<CastDeclaration>,
    pub constants: Vec<ConstantDefinition>,
    pub functions: Vec<FunctionDeclaration>,
}

impl Module {
    /// Whether this is the core module.
    pub fn is_core(&self) -> (r: bool)
        ensures
            r == self.core,
    {
        self.core
    }
}

} // verus!
