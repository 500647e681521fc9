//! The registry of named types that documents are validated against.

use vstd::prelude::*;

verus! {

/// The six kinds of named type a schema can define.
#[derive(Clone, Copy, Debug, PartialEq, Eq, Structural)]
pub enum TypeKind {
    Scalar,
    Enum,
    InputObject,
    Object,
    Interface,
    Union,
}

impl TypeKind {
    /// Whether values of a type of this kind can be passed in: scalars, enums
    /// and input objects can, objects, interfaces and unions cannot.
    pub open spec fn spec_is_input(&self) -> bool {
        match self {
            TypeKind::Scalar => true,
            TypeKind::Enum => true,
            TypeKind::InputObject => true,
            TypeKind::Object => false,
            TypeKind::Interface => false,
            TypeKind::Union => false,
        }
    }

    pub fn is_input(&self) -> (input: bool)
        ensures
            input == self.spec_is_input(),
    {
        match self {
            TypeKind::Scalar | TypeKind::Enum | TypeKind::InputObject => true,
            TypeKind::Object | TypeKind::Interface | TypeKind::Union => false,
        }
    }
}

/// The definition of one named type.
#[derive(Debug)]
pub struct MetaType {
    pub name: String,
    pub kind: TypeKind,
}

impl MetaType {
    pub fn new(name: &str, kind: TypeKind) -> (meta: MetaType)
        ensures
            meta.name@ == name@,
            meta.kind == kind,
    {
        MetaType { name: String::from_str(name), kind }
    }

    pub fn name(&self) -> (name: &str)
        ensures
            name@ == self.name@,
    {
        self.name.as_str()
    }

    pub fn kind(&self) -> (kind: TypeKind)
        ensures
            kind == self.kind,
    {
        self.kind
    }

    pub fn is_input(&self) -> (input: bool)
        ensures
            input == self.kind.spec_is_input(),
    {
        self.kind.is_input()
    }
}

/// The index of the first definition at or after `from` that carries `name`.
pub open spec fn first_named(types: Seq<MetaType>, name: Seq<char>, from: int) -> Option<int>
    decreases types.len() - from,
{
    if from < 0 || from >= types.len() {
        None
    } else if types[from].name@ == name {
        Some(from)
    } else {
        first_named(types, name, from + 1)
    }
}

/// The named types of a schema, in the order they were registered. Where a
/// name was registered more than once, the first definition is the one found.
#[derive(Debug)]
pub struct SchemaType {
    pub types: Vec<MetaType>,
}

impl SchemaType {
    /// The place of the definition that `name` resolves to, if there is one.
    pub open spec fn position_of(&self, name: Seq<char>) -> Option<int> {
        first_named(self.types@, name, 0)
    }

    /// The kind of the type that `name` resolves to, if it resolves.
    pub open spec fn kind_of(&self, name: Seq<char>) -> Option<TypeKind> {
        match self.position_of(name) {
            Some(at) => Some(self.types@[at].kind),
            None => None,
        }
    }

    pub fn new() -> (schema: SchemaType)
        ensures
            schema.types@ == Seq::<MetaType>::empty(),
    {
        SchemaType { types: Vec::new() }
    }

    /// Registers a definition behind those already there.
    pub fn add_type(&mut self, meta: MetaType)
        ensures
            final(self).types@ == old(self).types@.push(meta),
    {
        self.types.push(meta);
    }

    /// Looks a type up by name.
    pub fn concrete_type_by_name(&self, name: &str) -> (found: Option<&MetaType>)
        ensures
            match self.position_of(name@) {
                Some(at) => found == Some(&self.types@[at]),
                None => found is None,
            },
    {
        let wanted = String::from_str(name);
        let mut at: usize = 0;
        while at < self.types.len()
            invariant
                at <= self.types.len(),
                wanted@ == name@,
                first_named(self.types@, name@, 0) == first_named(self.types@, name@, at as int),
            decreases self.types.len() - at,
        {
            if self.types[at].name == wanted {
                return Some(&self.types[at]);
            }
            at += 1;
        }
        None
    }
}

/// A lookup finds the earliest definition that carries the name, and fails
/// only where no definition carries it.
pub proof fn lemma_first_named(types: Seq<MetaType>, name: Seq<char>, from: int)
    requires
        0 <= from,
    ensures
        match first_named(types, name, from) {
            Some(at) => from <= at < types.len() && types[at].name@ == name
                && forall|k: int| from <= k < at ==> (#[trigger] types[k]).name@ != name,
            None => forall|k: int| from <= k < types.len() ==> (#[trigger] types[k]).name@ != name,
        },
    decreases types.len() - from,
{
    if from < types.len() && types[from].name@ != name {
        lemma_first_named(types, name, from + 1);
    }
}

} // verus!
