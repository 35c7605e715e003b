//! Abstract storage locations.

use vstd::prelude::*;

verus! {

/// How a qualified path reaches a sub-location of its qualifier.
#[derive(Clone, Copy, Debug, PartialEq, Eq, Hash, Structural)]
pub enum PathSelector {
    /// The target of a reference or pointer.
    Deref,
    /// The field with the given index.
    Field(usize),
    /// The element at a constant index.
    Index(usize),
    /// The variant with the given index of an enum value.
    Downcast(usize),
}

/// A symbolic identifier of an abstract storage location.
#[derive(Debug, Eq, Hash)]
pub enum Path {
    /// A numbered local variable; parameters are the slots 1 to n.
    LocalVariable { ordinal: usize },
    /// The location reached by applying `selector` to `qualifier`.
    QualifiedPath { qualifier: Box<Path>, selector: PathSelector },
    /// A heap location allocated during the analysis.
    AbstractHeapAddress { ordinal: usize },
    /// A static variable, by its index.
    StaticVariable { ordinal: usize },
}

impl Clone for Path {
    fn clone(&self) -> (r: Self)
        ensures
            r == *self,
        decreases self,
    {
        match self {
            Path::LocalVariable { ordinal } => Path::LocalVariable { ordinal: *ordinal },
            Path::QualifiedPath { qualifier, selector } => Path::QualifiedPath {
                qualifier: Box::new((**qualifier).clone()),
                selector: *selector,
            },
            Path::AbstractHeapAddress { ordinal } => Path::AbstractHeapAddress { ordinal: *ordinal },
            Path::StaticVariable { ordinal } => Path::StaticVariable { ordinal: *ordinal },
        }
    }
}

impl PartialEq for Path {
    fn eq(&self, other: &Path) -> (r: bool)
        ensures
            r == (*self == *other),
        decreases self,
    {
        match (self, other) {
            (Path::LocalVariable { ordinal: a }, Path::LocalVariable { ordinal: b }) => *a == *b,
            (
                Path::QualifiedPath { qualifier: qa, selector: sa },
                Path::QualifiedPath { qualifier: qb, selector: sb },
            ) => *sa == *sb && (**qa).eq(&**qb),
            (Path::AbstractHeapAddress { ordinal: a }, Path::AbstractHeapAddress { ordinal: b }) => *a == *b,
            (Path::StaticVariable { ordinal: a }, Path::StaticVariable { ordinal: b }) => *a == *b,
            _ => false,
        }
    }
}

impl vstd::std_specs::cmp::PartialEqSpecImpl for Path {
    open spec fn obeys_eq_spec() -> bool {
        true
    }

    open spec fn eq_spec(&self, other: &Path) -> bool {
        *self == *other
    }
}

} // verus!
