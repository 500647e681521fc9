//! The nodes of a parsed query document.

use vstd::prelude::*;
use crate::parser::Spanning;

verus! {

/// A reference to a type as written in a document: a name, wrapped in any
/// number of list and non-null layers.
#[derive(Debug)]
pub enum Type {
    Named(String),
    List(Box<Type>),
    NonNull(Box<Type>),
}

impl Type {
    /// The name left once every list and non-null layer is removed.
    pub open spec fn spec_innermost_name(&self) -> Seq<char>
        decreases self,
    {
        match self {
            Type::Named(name) => name@,
            Type::List(inner) => inner.spec_innermost_name(),
            Type::NonNull(inner) => inner.spec_innermost_name(),
        }
    }

    /// The text of the reference: `[` and `]` around a list's item type, `!`
    /// behind a non-null type.
    pub open spec fn rendered(&self) -> Seq<char>
        decreases self,
    {
        match self {
            Type::Named(name) => name@,
            Type::List(inner) => seq!['['] + inner.rendered() + seq![']'],
            Type::NonNull(inner) => inner.rendered() + seq!['!'],
        }
    }

    pub fn innermost_name(&self) -> (name: &str)
        ensures
            name@ == self.spec_innermost_name(),
        decreases self,
    {
        match self {
            Type::Named(name) => name.as_str(),
            Type::List(inner) => inner.innermost_name(),
            Type::NonNull(inner) => inner.innermost_name(),
        }
    }

    /// Writes the reference out as source text.
    pub fn render(&self) -> (text: String)
        ensures
            text@ == self.rendered(),
        decreases self,
    {
        match self {
            Type::Named(name) => name.clone(),
            Type::List(inner) => {
                let mut text = String::from_str("[");
                let item = inner.render();
                text.append(item.as_str());
                text.append("]");
                proof {
                    reveal_strlit("[");
                    reveal_strlit("]");
                    assert("["@ =~= seq!['[']);
                    assert("]"@ =~= seq![']']);
                }
                text
            },
            Type::NonNull(inner) => {
                let mut text = inner.render();
                text.append("!");
                proof {
                    reveal_strlit("!");
                    assert("!"@ =~= seq!['!']);
                }
                text
            },
        }
    }
}

/// A list layer changes neither the innermost name nor what stands inside
/// the brackets of the text.
pub proof fn lemma_list_layer(inner: Type)
    ensures
        Type::List(Box::new(inner)).spec_innermost_name() == inner.spec_innermost_name(),
        Type::List(Box::new(inner)).rendered() == seq!['['] + inner.rendered() + seq![']'],
{
}

/// A non-null layer changes neither the innermost name nor what stands
/// before the `!` of the text.
pub proof fn lemma_non_null_layer(inner: Type)
    ensures
        Type::NonNull(Box::new(inner)).spec_innermost_name() == inner.spec_innermost_name(),
        Type::NonNull(Box::new(inner)).rendered() == inner.rendered() + seq!['!'],
{
}

/// The declaration of one variable of an operation: its type as written, and
/// the literal it defaults to, if any.
#[derive(Debug)]
pub struct VariableDefinition {
    pub var_type: Spanning<Type>,
    pub default_value: Option<Spanning<InputValue>>,
}

/// A literal value written in a document.
#[derive(Debug)]
pub enum InputValue {
    Null,
    Int(i64),
    String(String),
    Boolean(bool),
    Enum(String),
    Variable(String),
    List(Vec<Spanning<InputValue>>),
    Object(Vec<(Spanning<String>, Spanning<InputValue>)>),
}


/// An argument of a field: its name and the value passed.
pub type Argument = (Spanning<String>, Spanning<InputValue>);

/// A variable of an operation: its name and its declaration.
pub type VariableEntry = (Spanning<String>, VariableDefinition);

/// A field selected on the enclosing type.
#[derive(Debug)]
pub struct Field {
    pub alias: Option<Spanning<String>>,
    pub name: Spanning<String>,
    pub arguments: Vec<Argument>,
    pub selection_set: Option<Vec<Selection>>,
}

/// The use of a named fragment in a selection set.
#[derive(Debug)]
pub struct FragmentSpread {
    pub name: Spanning<String>,
}

/// A selection set written in place, with an optional type condition.
#[derive(Debug)]
pub struct InlineFragment {
    pub type_condition: Option<Spanning<String>>,
    pub selection_set: Vec<Selection>,
}

/// One entry of a selection set.
#[derive(Debug)]
pub enum Selection {
    Field(Spanning<Field>),
    FragmentSpread(Spanning<FragmentSpread>),
    InlineFragment(Spanning<InlineFragment>),
}

#[derive(Clone, Copy, Debug, PartialEq, Eq, Structural)]
pub enum OperationType {
    Query,
    Mutation,
    Subscription,
}

/// A query, mutation or subscription with the variables it declares.
#[derive(Debug)]
pub struct Operation {
    pub operation_type: OperationType,
    pub name: Option<Spanning<String>>,
    pub variable_definitions: Vec<VariableEntry>,
    pub selection_set: Vec<Selection>,
}

/// A named fragment.
#[derive(Debug)]
pub struct Fragment {
    pub name: Spanning<String>,
    pub type_condition: Spanning<String>,
    pub selection_set: Vec<Selection>,
}

/// A top-level definition of a document.
#[derive(Debug)]
pub enum Definition {
    Operation(Spanning<Operation>),
    Fragment(Spanning<Fragment>),
}

/// A parsed document: its definitions in source order.
pub type Document = Vec<Definition>;

/// A node of a document as the walk hands it to the rules.
#[derive(Clone, Copy, Debug)]
pub enum Node<'a> {
    Document(&'a Document),
    OperationDefinition(&'a Spanning<Operation>),
    FragmentDefinition(&'a Spanning<Fragment>),
    VariableDefinition(&'a VariableEntry),
    SelectionSet(&'a Vec<Selection>),
    Field(&'a Spanning<Field>),
    Argument(&'a Argument),
    FragmentSpread(&'a Spanning<FragmentSpread>),
    InlineFragment(&'a Spanning<InlineFragment>),
}

} // verus!
