//! Resolved names.
use crate::datum::{Datum, Dup};
use crate::ids::{DefId, FileId, LocalId, NodeId, Symbol};
use crate::table::Table;
use vstd::prelude::*;

verus! {

/// What kind of item a definition is.
#[derive(Clone, Copy, Debug, PartialEq, Eq, Structural)]
pub enum DefKind {
    Type,
    Enum,
    Trait,
    Fn,
    TypeAlias,
    Primitive,
    Imported,
}

/// A declared item.
pub struct Definition {
    pub name: Symbol,
    pub kind: DefKind,
    /// The declaring file; none for built-in items.
    pub file: Option<FileId>,
    /// Method names, in the order that static member paths count them.
    pub methods: Vec<Symbol>,
    /// Associated constant names, in the order that paths count them.
    pub constants: Vec<Symbol>,
}

/// All declared items.
pub struct Definitions {
    pub items: Vec<Definition>,
    /// Names visible in every file.
    pub global: Table<Symbol, DefId>,
    /// Names visible in one file.
    pub scoped: Table<(FileId, Symbol), DefId>,
}

impl Definitions {
    /// The name of an item; empty for an unknown id.
    pub open spec fn name_of(self, id: DefId) -> Seq<char> {
        if id.0 < self.items@.len() {
            self.items@[id.0 as int].name@
        } else {
            Seq::empty()
        }
    }

    /// The kind of an item.
    pub open spec fn kind_of(self, id: DefId) -> DefKind {
        if id.0 < self.items@.len() {
            self.items@[id.0 as int].kind
        } else {
            DefKind::Imported
        }
    }

    /// The declaring file of an item.
    pub open spec fn file_of(self, id: DefId) -> Option<FileId> {
        if id.0 < self.items@.len() {
            self.items@[id.0 as int].file
        } else {
            None
        }
    }

    /// The name of an item's `i`-th method.
    pub open spec fn method_name_of(self, id: DefId, i: u32) -> Option<Seq<char>> {
        if id.0 < self.items@.len() && i < self.items@[id.0 as int].methods@.len() {
            Some(self.items@[id.0 as int].methods@[i as int]@)
        } else {
            None
        }
    }

    /// The name of an item's `i`-th associated constant.
    pub open spec fn constant_name_of(self, id: DefId, i: u32) -> Option<Seq<char>> {
        if id.0 < self.items@.len() && i < self.items@[id.0 as int].constants@.len() {
            Some(self.items@[id.0 as int].constants@[i as int]@)
        } else {
            None
        }
    }

    /// What a name denotes in every file.
    pub open spec fn found(self, name: Seq<char>) -> Option<DefId> {
        self.global@.get(name)
    }

    /// What a name denotes in one file: its own names come first.
    pub open spec fn found_in(self, file: FileId, name: Seq<char>) -> Option<DefId> {
        match self.scoped@.get((file, name)) {
            Some(id) => Some(id),
            None => self.global@.get(name),
        }
    }

    /// The first trait with this name from the `i`-th item on.
    pub open spec fn trait_from(self, name: Seq<char>, i: int) -> Option<DefId>
        decreases self.items@.len() - i,
    {
        if !(0 <= i < self.items@.len()) || i > u32::MAX {
            None
        } else if self.items@[i].kind is Trait && self.items@[i].name@ == name {
            Some(DefId(i as u32))
        } else {
            self.trait_from(name, i + 1)
        }
    }

    pub fn name(&self, id: DefId) -> (r: &str)
        ensures
            r@ == self.name_of(id),
    {
        let i: usize = id.0 as usize;
        if i < self.items.len() {
            self.items[i].name.as_str()
        } else {
            proof {
                reveal_strlit("");
                assert(""@ =~= Seq::<char>::empty());
            }
            ""
        }
    }

    pub fn kind(&self, id: DefId) -> (r: DefKind)
        ensures
            r == self.kind_of(id),
    {
        let i: usize = id.0 as usize;
        if i < self.items.len() {
            self.items[i].kind
        } else {
            DefKind::Imported
        }
    }

    pub fn file(&self, id: DefId) -> (r: Option<FileId>)
        ensures
            r == self.file_of(id),
    {
        let i: usize = id.0 as usize;
        if i < self.items.len() {
            self.items[i].file
        } else {
            None
        }
    }

    pub fn method_name(&self, id: DefId, method: u32) -> (r: Option<&Symbol>)
        ensures
            r.deep_view() == self.method_name_of(id, method),
    {
        let i: usize = id.0 as usize;
        let m: usize = method as usize;
        if i < self.items.len() && m < self.items[i].methods.len() {
            Some(&self.items[i].methods[m])
        } else {
            None
        }
    }

    pub fn constant_name(&self, id: DefId, constant: u32) -> (r: Option<&Symbol>)
        ensures
            r.deep_view() == self.constant_name_of(id, constant),
    {
        let i: usize = id.0 as usize;
        let m: usize = constant as usize;
        if i < self.items.len() && m < self.items[i].constants.len() {
            Some(&self.items[i].constants[m])
        } else {
            None
        }
    }

    /// What `name` denotes in every file.
    pub fn lookup(&self, name: &str) -> (r: Option<DefId>)
        ensures
            r == self.found(name@),
    {
        let key: Symbol = name.to_owned();
        match self.global.get(&key) {
            Some(id) => Some(*id),
            None => None,
        }
    }

    /// What `name` denotes in `file`.
    pub fn lookup_in(&self, file: FileId, name: &Symbol) -> (r: Option<DefId>)
        ensures
            r == self.found_in(file, name@),
    {
        let key: (FileId, Symbol) = (file, name.clone());
        match self.scoped.get(&key) {
            Some(id) => Some(*id),
            None => match self.global.get(name) {
                Some(id) => Some(*id),
                None => None,
            },
        }
    }

    /// The first trait with this name.
    pub fn find_trait(&self, name: &str) -> (r: Option<DefId>)
        ensures
            r == self.trait_from(name@, 0),
    {
        let key: Symbol = name.to_owned();
        let mut i: usize = 0;
        while i < self.items.len() && i <= 0xffff_ffff
            invariant
                i <= self.items.len(),
                key@ == name@,
                self.trait_from(name@, 0) == self.trait_from(name@, i as int),
            decreases self.items.len() - i,
        {
            if matches!(self.items[i].kind, DefKind::Trait) && self.items[i].name == key {
                return Some(DefId(i as u32));
            }
            i += 1;
        }
        None
    }
}

/// What the head of a path denotes.
#[derive(Clone, Copy, Debug, PartialEq, Eq, Structural)]
pub enum Resolution {
    Local(LocalId),
    Def(DefId),
    EnumVariant(DefId, u32),
    StaticMember(DefId, u32),
    StaticConst(DefId, u32),
    GenericParam,
    ConstParam,
    Error,
}

/// What a path denotes, and how many of its segments that covers. The
/// segments after them are member accesses.
#[derive(Clone, Copy, Debug, PartialEq, Eq, Structural)]
pub struct PathResolution {
    pub base: Resolution,
    pub consumed: usize,
}

impl DeepView for PathResolution {
    type V = PathResolution;

    open spec fn deep_view(&self) -> PathResolution {
        *self
    }
}

impl Dup for PathResolution {
    fn dup(&self) -> (r: Self) {
        *self
    }
}

impl Datum for PathResolution {
    fn same(&self, other: &Self) -> (r: bool) {
        *self == *other
    }
}

/// The names of a module, resolved.
pub struct ResolvedNames {
    pub definitions: Definitions,
    /// By the id of a path.
    pub path_res: Table<NodeId, PathResolution>,
    /// By the id of a binding site.
    pub locals: Table<NodeId, LocalId>,
}

impl ResolvedNames {
    /// What a path denotes.
    pub open spec fn path(self, id: NodeId) -> Option<PathResolution> {
        self.path_res@.get(id)
    }

    /// The local that a site binds.
    pub open spec fn local(self, id: NodeId) -> Option<LocalId> {
        self.locals@.get(id)
    }

    pub fn path_of(&self, id: NodeId) -> (r: Option<PathResolution>)
        ensures
            r == self.path(id),
    {
        match self.path_res.get(&id) {
            Some(p) => Some(*p),
            None => None,
        }
    }

    pub fn local_of(&self, id: NodeId) -> (r: Option<LocalId>)
        ensures
            r == self.local(id),
    {
        match self.locals.get(&id) {
            Some(p) => Some(*p),
            None => None,
        }
    }
}

} // verus!
