//! The plain declarations of the interpreter's value model: enum types and
//! their members, custom type tags, and the kinds of callables. The values
//! themselves carry numbers as floating point and stay with the interpreter.

use std::rc::Rc;
use vstd::prelude::*;

verus! {

/// An enum type declared by a module.
#[derive(Debug)]
pub struct EnumDef {
    pub name: String,
    pub members: Vec<String>,
    /// Which module declared it (for identity and error messages).
    pub module: String,
}

/// A member of an enum type: the type and the member's position in it.
#[derive(Clone)]
pub struct EnumValue {
    pub def: Rc<EnumDef>,
    pub index: usize,
}

impl EnumValue {
    /// The member's name.
    pub fn name(&self) -> (r: &str)
        requires
            self.index < self.def.members.len(),
        ensures
            r@ == self.def.members[self.index as int]@,
    {
        self.def.members[self.index].as_str()
    }
}

/// A custom type declared with `type Name typecheck predicate;`.
#[derive(Debug)]
pub struct TypeDef {
    pub name: String,
    /// Name of the `typecheck` predicate, resolved lazily in the declaring module.
    pub typecheck: Option<String>,
    pub module: String,
}

/// What kind of declaration a callable comes from.
#[derive(Clone, Copy, Debug, PartialEq, Eq, Structural)]
pub enum FnKind {
    Function,
    /// `predicate`: body statements are checks; the call returns bool.
    Predicate,
    /// `x => expr` / `(a, b) => { ... }`.
    Lambda,
}

} // verus!
