//! The prototypes that functions and imports are given.

use vstd::prelude::*;

verus! {

/// What is known of a primitive type besides its size.
#[derive(Clone, Copy, Debug, PartialEq, Eq, Structural)]
pub enum PrimitiveKind {
    /// Anything of that size.
    Generic,
    Unsigned,
    Signed,
    Float,
}

/// A primitive type.
#[derive(Clone, Copy, Debug, PartialEq, Eq, Structural)]
pub struct Primitive {
    pub kind: PrimitiveKind,
    /// Its size in bytes.
    pub size: u16,
}

impl Primitive {
    /// Anything of `size` bytes.
    pub fn generic(size: u16) -> (primitive: Primitive)
        ensures
            primitive == (Primitive { kind: PrimitiveKind::Generic, size }),
    {
        Primitive { kind: PrimitiveKind::Generic, size }
    }
}

/// What a function takes and returns.
#[derive(Debug)]
pub struct Prototype {
    pub arguments: Vec<Primitive>,
    pub returns: Option<Primitive>,
}

impl Prototype {
    /// A function that takes nothing and returns a value of type `returned`.
    pub fn returning(returned: Primitive) -> (prototype: Prototype)
        ensures
            prototype.arguments@ == Seq::<Primitive>::empty(),
            prototype.returns == Some(returned),
    {
        Prototype { arguments: Vec::new(), returns: Some(returned) }
    }
}

} // verus!
