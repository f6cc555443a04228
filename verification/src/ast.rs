//! The query document tree.
//!
//! The tree is plain data: it is built elsewhere and only read here. Every
//! sequence keeps the order in which its items were given.

use vstd::prelude::*;

verus! {

/// The root: definitions in source order.
#[derive(Debug, PartialEq)]
pub struct Document {
    pub definitions: Vec<Definition>,
}

/// What a document is made of.
#[derive(Debug, PartialEq)]
pub enum Definition {
    Operation(OperationDefinition),
    Fragment(FragmentDefinition),
}

/// An operation, with or without its keyword.
#[derive(Debug, PartialEq)]
pub enum OperationDefinition {
    /// An anonymous query written as a bare selection set.
    SelectionSet(SelectionSet),
    Query(Query),
    Mutation(Mutation),
    Subscription(Subscription),
}

/// A query written with its keyword. The variable definitions belong to
/// the name: they are shown only where there is one.
#[derive(Debug, PartialEq)]
pub struct Query {
    pub name: Option<String>,
    pub variable_definitions: Vec<VariableDefinition>,
    pub selection_set: SelectionSet,
}

/// A mutation; it has the parts of a query.
#[derive(Debug, PartialEq)]
pub struct Mutation {
    pub name: Option<String>,
    pub variable_definitions: Vec<VariableDefinition>,
    pub selection_set: SelectionSet,
}

/// A subscription; it has the parts of a query.
#[derive(Debug, PartialEq)]
pub struct Subscription {
    pub name: Option<String>,
    pub variable_definitions: Vec<VariableDefinition>,
    pub selection_set: SelectionSet,
}

/// A named fragment on a type.
#[derive(Debug, PartialEq)]
pub struct FragmentDefinition {
    pub name: String,
    pub type_condition: TypeCondition,
    pub selection_set: SelectionSet,
}

/// Selections in the order in which they were asked for.
#[derive(Debug, PartialEq)]
pub struct SelectionSet {
    pub items: Vec<Selection>,
}

/// One entry of a selection set.
#[derive(Debug, PartialEq)]
pub enum Selection {
    Field(Field),
    InlineFragment(InlineFragment),
    FragmentSpread(FragmentSpread),
}

/// A field, with its arguments in the order in which they were given.
#[derive(Debug, PartialEq)]
pub struct Field {
    pub alias: Option<String>,
    pub name: String,
    /// Argument names need not be unique.
    pub arguments: Vec<(String, Value)>,
    /// Empty when the field has no sub-selection.
    pub selection_set: SelectionSet,
}

/// Selections under an optional type condition, without a name.
#[derive(Debug, PartialEq)]
pub struct InlineFragment {
    pub type_condition: Option<TypeCondition>,
    pub selection_set: SelectionSet,
}

/// The use of a named fragment.
#[derive(Debug, PartialEq)]
pub struct FragmentSpread {
    pub fragment_name: String,
}

/// The type that a fragment applies to.
#[derive(Debug, PartialEq)]
pub enum TypeCondition {
    On(String),
}

/// A typed parameter of a named operation, with an optional default.
#[derive(Debug, PartialEq)]
pub struct VariableDefinition {
    pub name: String,
    pub var_type: VariableType,
    pub default_value: Option<Value>,
}

/// The type of a variable. The nesting is kept as it is given.
#[derive(Debug, PartialEq)]
pub enum VariableType {
    NamedType(String),
    ListType(Box<VariableType>),
    NonNullType(Box<VariableType>),
}

/// An input value.
#[derive(Debug, PartialEq)]
pub enum Value {
    Variable(String),
    Int(i64),
    /// A floating-point number, held as its decimal text.
    Float(String),
    /// The characters of a string, not yet quoted or escaped.
    String(String),
    Boolean(bool),
    Null,
    EnumValue(String),
    ListValue(Vec<Value>),
    /// Keys with their values, in the order in which they were given.
    ObjectValue(Vec<(String, Value)>),
}

} // verus!
