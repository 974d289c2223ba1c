//! Identifiers and source positions.
use crate::datum::{Datum, Dup};
use vstd::prelude::*;

verus! {

/// An interned name.
pub type Symbol = String;

/// A declared item.
#[derive(Clone, Copy, Debug, PartialEq, Eq, Hash, Structural)]
pub struct DefId(pub u32);

/// A syntax node.
#[derive(Clone, Copy, Debug, PartialEq, Eq, Hash, Structural)]
pub struct NodeId(pub u32);

/// A local variable.
#[derive(Clone, Copy, Debug, PartialEq, Eq, Hash, Structural)]
pub struct LocalId(pub u32);

/// A source file.
#[derive(Clone, Copy, Debug, PartialEq, Eq, Hash, Structural)]
pub struct FileId(pub u32);

/// A range of source text.
#[derive(Clone, Copy, Debug, PartialEq, Eq, Hash, Structural)]
pub struct Span {
    pub file: FileId,
    pub start: u32,
    pub end: u32,
}

/// Who may name an item.
#[derive(Clone, Copy, Debug, PartialEq, Eq, Hash, Structural)]
pub enum Visibility {
    Private,
    Public,
}

/// How a method takes its receiver.
#[derive(Clone, Copy, Debug, PartialEq, Eq, Hash, Structural)]
pub enum SelfParam {
    /// `self`
    ByRef,
    /// `mut self`
    ByMutRef,
    /// `: self`
    Owned,
    /// `: &self`
    OwnedRef,
    /// `: &mut self`
    OwnedMutRef,
}

impl DeepView for DefId {
    type V = DefId;

    open spec fn deep_view(&self) -> DefId {
        *self
    }
}

impl Dup for DefId {
    fn dup(&self) -> (r: Self) {
        *self
    }
}

impl Datum for DefId {
    fn same(&self, other: &Self) -> (r: bool) {
        *self == *other
    }
}

impl DeepView for NodeId {
    type V = NodeId;

    open spec fn deep_view(&self) -> NodeId {
        *self
    }
}

impl Dup for NodeId {
    fn dup(&self) -> (r: Self) {
        *self
    }
}

impl Datum for NodeId {
    fn same(&self, other: &Self) -> (r: bool) {
        *self == *other
    }
}

impl DeepView for LocalId {
    type V = LocalId;

    open spec fn deep_view(&self) -> LocalId {
        *self
    }
}

impl Dup for LocalId {
    fn dup(&self) -> (r: Self) {
        *self
    }
}

impl Datum for LocalId {
    fn same(&self, other: &Self) -> (r: bool) {
        *self == *other
    }
}

impl DeepView for FileId {
    type V = FileId;

    open spec fn deep_view(&self) -> FileId {
        *self
    }
}

impl Dup for FileId {
    fn dup(&self) -> (r: Self) {
        *self
    }
}

impl Datum for FileId {
    fn same(&self, other: &Self) -> (r: bool) {
        *self == *other
    }
}

impl DeepView for Span {
    type V = Span;

    open spec fn deep_view(&self) -> Span {
        *self
    }
}

impl Dup for Span {
    fn dup(&self) -> (r: Self) {
        *self
    }
}

impl Datum for Span {
    fn same(&self, other: &Self) -> (r: bool) {
        *self == *other
    }
}

impl DeepView for Visibility {
    type V = Visibility;

    open spec fn deep_view(&self) -> Visibility {
        *self
    }
}

impl Dup for Visibility {
    fn dup(&self) -> (r: Self) {
        *self
    }
}

impl Datum for Visibility {
    fn same(&self, other: &Self) -> (r: bool) {
        *self == *other
    }
}

impl DeepView for SelfParam {
    type V = SelfParam;

    open spec fn deep_view(&self) -> SelfParam {
        *self
    }
}

impl Dup for SelfParam {
    fn dup(&self) -> (r: Self) {
        *self
    }
}

impl Datum for SelfParam {
    fn same(&self, other: &Self) -> (r: bool) {
        *self == *other
    }
}

} // verus!
