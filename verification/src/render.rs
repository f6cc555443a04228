//! The rendering rules: for each kind of node, the text it stands for and
//! the writer calls that produce it.
//!
//! A rule is stated twice. `text` says what the node looks like, as a value;
//! `display` appends exactly that to a writer.

use vstd::prelude::*;
use vstd::utf8::encode_utf8;
use crate::ast::Definition;
use crate::ast::Document;
use crate::ast::Field;
use crate::ast::FragmentDefinition;
use crate::ast::FragmentSpread;
use crate::ast::InlineFragment;
use crate::ast::Mutation;
use crate::ast::OperationDefinition;
use crate::ast::Query;
use crate::ast::Selection;
use crate::ast::SelectionSet;
use crate::ast::Subscription;
use crate::ast::TypeCondition;
use crate::ast::Value;
use crate::ast::VariableDefinition;
use crate::ast::VariableType;
use crate::join::concat;
use crate::join::joined;
use crate::join::lemma_concat_step;
use crate::join::lemma_joined_step;
use crate::literal::decimal;
use crate::literal::int_to_text;
use crate::literal::quote;
use crate::literal::quoted;
use crate::writer::block_close;
use crate::writer::block_open;
use crate::writer::pad;
use crate::writer::Formatter;
use crate::writer::Style;

verus! {

/// A node that can be written out.
pub trait Displayable {
    /// The text of the node at nesting depth `depth`, for a writer that
    /// indents by `width` spaces per level.
    spec fn text(&self, width: nat, depth: nat) -> Seq<char>;

    /// Appends the node's text to the writer. Whatever blocks it opens it
    /// also closes, so the writer is left at the depth it had.
    fn display(&self, f: &mut Formatter)
        requires
            old(f).wf(),
        ensures
            final(f).balanced(old(f)),
            final(f)@ == old(f)@ + self.text(old(f).indent_width(), old(f).spec_depth() as nat),
    ;
}

/// The texts of the values, in order.
pub open spec fn value_texts(items: Seq<Value>, width: nat, depth: nat) -> Seq<Seq<char>>
    decreases items, 0nat,
{
    Seq::new(
        items.len(),
        |i: int|
            if 0 <= i < items.len() {
                items[i].text(width, depth)
            } else {
                Seq::empty()
            },
    )
}

/// The texts `name: value` of the pairs, in order.
pub open spec fn argument_texts(args: Seq<(String, Value)>, width: nat, depth: nat) -> Seq<
    Seq<char>,
>
    decreases args, 0nat,
{
    Seq::new(
        args.len(),
        |i: int|
            if 0 <= i < args.len() {
                args[i].0@ + ": "@ + args[i].1.text(width, depth)
            } else {
                Seq::empty()
            },
    )
}

/// The texts of the variable definitions, in order.
pub open spec fn variable_definition_texts(
    defs: Seq<VariableDefinition>,
    width: nat,
    depth: nat,
) -> Seq<Seq<char>> {
    Seq::new(defs.len(), |i: int| defs[i].text(width, depth))
}

/// The texts of the selections, in order, each at depth `depth`.
pub open spec fn selection_texts(items: Seq<Selection>, width: nat, depth: nat) -> Seq<Seq<char>>
    decreases items, 0nat,
{
    Seq::new(
        items.len(),
        |i: int|
            if 0 <= i < items.len() {
                items[i].text(width, depth)
            } else {
                Seq::empty()
            },
    )
}

/// The texts of the definitions, in order.
pub open spec fn definition_texts(items: Seq<Definition>, width: nat, depth: nat) -> Seq<
    Seq<char>,
> {
    Seq::new(items.len(), |i: int| items[i].text(width, depth))
}

/// The pairs as `name: value`, separated by commas.
pub open spec fn arguments_text(args: Seq<(String, Value)>, width: nat, depth: nat) -> Seq<char>
    decreases args, 1nat,
{
    joined(argument_texts(args, width, depth), ", "@)
}

/// The alias of a field with its colon, or nothing.
pub open spec fn alias_text(alias: Option<String>) -> Seq<char> {
    match alias {
        Some(alias) => alias@ + ": "@,
        None => Seq::empty(),
    }
}

/// The arguments of a field in parentheses, or nothing where it has none.
pub open spec fn argument_clause(args: Seq<(String, Value)>, width: nat, depth: nat) -> Seq<char> {
    if args.len() > 0 {
        "("@ + arguments_text(args, width, depth) + ")"@
    } else {
        Seq::empty()
    }
}

/// The variable definitions of an operation in parentheses, one after the
/// other with nothing between them, or nothing where it has none.
pub open spec fn variable_clause(defs: Seq<VariableDefinition>, width: nat, depth: nat) -> Seq<
    char,
> {
    if defs.len() > 0 {
        "("@ + concat(variable_definition_texts(defs, width, depth)) + ")"@
    } else {
        Seq::empty()
    }
}

/// What stands between the keyword of an operation and its block: for a
/// named operation its name, its variable definitions and a space; for an
/// unnamed one nothing, its variable definitions included.
pub open spec fn operation_head(
    name: Option<String>,
    defs: Seq<VariableDefinition>,
    width: nat,
    depth: nat,
) -> Seq<char> {
    match name {
        Some(name) => name@ + variable_clause(defs, width, depth) + " "@,
        None => Seq::empty(),
    }
}

/// An operation: its keyword, its head and the block of its selections.
pub open spec fn operation_text(
    keyword: Seq<char>,
    name: Option<String>,
    defs: Seq<VariableDefinition>,
    set: &SelectionSet,
    width: nat,
    depth: nat,
) -> Seq<char> {
    pad(width, depth) + keyword + operation_head(name, defs, width, depth) + set.block_text(
        width,
        depth,
    )
}

impl SelectionSet {
    /// The selections one after the other, each on lines of its own at
    /// depth `depth`.
    pub open spec fn items_text(&self, width: nat, depth: nat) -> Seq<char>
        decreases self, 0nat,
    {
        concat(selection_texts(self.items@, width, depth))
    }

    /// The selections as a block opened on a line at depth `depth`: the
    /// opening brace, the selections one level deeper, and the closing
    /// brace back at `depth`.
    pub open spec fn block_text(&self, width: nat, depth: nat) -> Seq<char>
        decreases self, 1nat,
    {
        block_open() + self.items_text(width, depth + 1) + block_close(width, depth)
    }

    /// Writes the selections in order.
    pub fn display_items(&self, f: &mut Formatter)
        requires
            old(f).wf(),
        ensures
            final(f).balanced(old(f)),
            final(f)@ == old(f)@ + self.items_text(
                old(f).indent_width(),
                old(f).spec_depth() as nat,
            ),
        decreases self, 0nat,
    {
        let ghost parts = selection_texts(
            self.items@,
            old(f).indent_width(),
            old(f).spec_depth() as nat,
        );
        let mut i: usize = 0;
        while i < self.items.len()
            invariant
                i <= self.items.len(),
                parts == selection_texts(
                    self.items@,
                    old(f).indent_width(),
                    old(f).spec_depth() as nat,
                ),
                f.balanced(old(f)),
                f@ == old(f)@ + concat(parts.take(i as int)),
            decreases self.items.len() - i,
        {
            proof {
                lemma_concat_step(parts, i as int);
            }
            self.items[i].display(f);
            i = i + 1;
        }
        assert(parts.take(i as int) == parts);
    }

    /// Writes the selections as a block.
    pub fn display_block(&self, f: &mut Formatter)
        requires
            old(f).wf(),
        ensures
            final(f).balanced(old(f)),
            final(f)@ == old(f)@ + self.block_text(
                old(f).indent_width(),
                old(f).spec_depth() as nat,
            ),
        decreases self, 1nat,
    {
        f.start_block();
        self.display_items(f);
        f.end_block();
    }
}

/// Writes the values in order, separated by commas.
fn display_values(items: &Vec<Value>, f: &mut Formatter)
    requires
        old(f).wf(),
    ensures
        final(f).balanced(old(f)),
        final(f)@ == old(f)@ + joined(
            value_texts(items@, old(f).indent_width(), old(f).spec_depth() as nat),
            ", "@,
        ),
    decreases items, 0nat,
{
    let ghost parts = value_texts(items@, old(f).indent_width(), old(f).spec_depth() as nat);
    let mut i: usize = 0;
    while i < items.len()
        invariant
            i <= items.len(),
            parts == value_texts(items@, old(f).indent_width(), old(f).spec_depth() as nat),
            f.balanced(old(f)),
            f@ == old(f)@ + joined(parts.take(i as int), ", "@),
        decreases items.len() - i,
    {
        proof {
            lemma_joined_step(parts, ", "@, i as int);
        }
        if i > 0 {
            f.write(", ");
        }
        items[i].display(f);
        i = i + 1;
    }
    assert(parts.take(i as int) == parts);
}

/// Writes the pairs as `name: value`, in order, separated by commas.
fn display_arguments(args: &Vec<(String, Value)>, f: &mut Formatter)
    requires
        old(f).wf(),
    ensures
        final(f).balanced(old(f)),
        final(f)@ == old(f)@ + arguments_text(
            args@,
            old(f).indent_width(),
            old(f).spec_depth() as nat,
        ),
    decreases args, 0nat,
{
    let ghost parts = argument_texts(args@, old(f).indent_width(), old(f).spec_depth() as nat);
    let mut i: usize = 0;
    while i < args.len()
        invariant
            i <= args.len(),
            parts == argument_texts(args@, old(f).indent_width(), old(f).spec_depth() as nat),
            f.balanced(old(f)),
            f@ == old(f)@ + joined(parts.take(i as int), ", "@),
        decreases args.len() - i,
    {
        proof {
            lemma_joined_step(parts, ", "@, i as int);
        }
        if i > 0 {
            f.write(", ");
        }
        f.write(args[i].0.as_str());
        f.write(": ");
        args[i].1.display(f);
        i = i + 1;
    }
    assert(parts.take(i as int) == parts);
}

/// Writes the variable definitions in order, with nothing between them.
fn display_variable_definitions(defs: &Vec<VariableDefinition>, f: &mut Formatter)
    requires
        old(f).wf(),
    ensures
        final(f).balanced(old(f)),
        final(f)@ == old(f)@ + concat(
            variable_definition_texts(defs@, old(f).indent_width(), old(f).spec_depth() as nat),
        ),
{
    let ghost parts = variable_definition_texts(
        defs@,
        old(f).indent_width(),
        old(f).spec_depth() as nat,
    );
    let mut i: usize = 0;
    while i < defs.len()
        invariant
            i <= defs.len(),
            parts == variable_definition_texts(
                defs@,
                old(f).indent_width(),
                old(f).spec_depth() as nat,
            ),
            f.balanced(old(f)),
            f@ == old(f)@ + concat(parts.take(i as int)),
        decreases defs.len() - i,
    {
        proof {
            lemma_concat_step(parts, i as int);
        }
        defs[i].display(f);
        i = i + 1;
    }
    assert(parts.take(i as int) == parts);
}

/// Writes an operation that begins with `keyword`.
fn display_operation(
    keyword: &str,
    name: &Option<String>,
    defs: &Vec<VariableDefinition>,
    set: &SelectionSet,
    f: &mut Formatter,
)
    requires
        old(f).wf(),
    ensures
        final(f).balanced(old(f)),
        final(f)@ == old(f)@ + operation_text(
            keyword@,
            *name,
            defs@,
            set,
            old(f).indent_width(),
            old(f).spec_depth() as nat,
        ),
{
    f.indent();
    f.write(keyword);
    if let Some(name) = name {
        f.write(name.as_str());
        if defs.len() > 0 {
            f.write("(");
            display_variable_definitions(defs, f);
            f.write(")");
        }
        f.write(" ");
    }
    set.display_block(f);
}

impl Displayable for Document {
    /// The definitions one after the other; each ends its own last line.
    open spec fn text(&self, width: nat, depth: nat) -> Seq<char> {
        concat(definition_texts(self.definitions@, width, depth))
    }

    fn display(&self, f: &mut Formatter) {
        let ghost parts = definition_texts(
            self.definitions@,
            old(f).indent_width(),
            old(f).spec_depth() as nat,
        );
        let mut i: usize = 0;
        while i < self.definitions.len()
            invariant
                i <= self.definitions.len(),
                parts == definition_texts(
                    self.definitions@,
                    old(f).indent_width(),
                    old(f).spec_depth() as nat,
                ),
                f.balanced(old(f)),
                f@ == old(f)@ + concat(parts.take(i as int)),
            decreases self.definitions.len() - i,
        {
            proof {
                lemma_concat_step(parts, i as int);
            }
            self.definitions[i].display(f);
            i = i + 1;
        }
        assert(parts.take(i as int) == parts);
    }
}

impl Document {
    /// Renders the document with the given style.
    pub fn format(&self, style: &Style) -> (text: String)
        ensures
            text@ == self.text(style.indent_width as nat, 0),
    {
        let mut formatter = Formatter::new(style);
        self.display(&mut formatter);
        formatter.into_string()
    }

    /// Renders the document with the default style: two spaces per level.
    pub fn to_string(&self) -> (text: String)
        ensures
            text@ == self.text(2, 0),
    {
        self.format(&Style::default())
    }
}

/// Rendering is a function of the document and the style alone: two texts
/// that `format` returns for the same document and the same style are the
/// same, character for character and byte for byte.
pub proof fn lemma_format_is_deterministic(
    document: &Document,
    style: &Style,
    first: Seq<char>,
    second: Seq<char>,
)
    requires
        first == document.text(style.indent_width as nat, 0),
        second == document.text(style.indent_width as nat, 0),
    ensures
        first == second,
        encode_utf8(first) == encode_utf8(second),
{
}

/// A writer that was fresh before it rendered a node has closed every block
/// it opened and is at depth 0 again.
pub proof fn lemma_rendering_closes_every_block(fresh: &Formatter, done: &Formatter)
    requires
        fresh.spec_depth() == 0,
        fresh.blocks_opened() == 0,
        fresh.blocks_closed() == 0,
        done.balanced(fresh),
    ensures
        done.spec_depth() == 0,
        done.blocks_opened() == done.blocks_closed(),
{
}

impl Displayable for Definition {
    open spec fn text(&self, width: nat, depth: nat) -> Seq<char> {
        match self {
            Definition::Operation(op) => op.text(width, depth),
            Definition::Fragment(frag) => frag.text(width, depth),
        }
    }

    fn display(&self, f: &mut Formatter) {
        match self {
            Definition::Operation(op) => op.display(f),
            Definition::Fragment(frag) => frag.display(f),
        }
    }
}

impl Displayable for OperationDefinition {
    open spec fn text(&self, width: nat, depth: nat) -> Seq<char> {
        match self {
            OperationDefinition::SelectionSet(set) => set.text(width, depth),
            OperationDefinition::Query(q) => q.text(width, depth),
            OperationDefinition::Mutation(m) => m.text(width, depth),
            OperationDefinition::Subscription(s) => s.text(width, depth),
        }
    }

    fn display(&self, f: &mut Formatter) {
        match self {
            OperationDefinition::SelectionSet(set) => set.display(f),
            OperationDefinition::Query(q) => q.display(f),
            OperationDefinition::Mutation(m) => m.display(f),
            OperationDefinition::Subscription(s) => s.display(f),
        }
    }
}

impl Displayable for FragmentDefinition {
    /// `fragment Name on Type` and the block of its selections.
    open spec fn text(&self, width: nat, depth: nat) -> Seq<char> {
        pad(width, depth) + "fragment "@ + self.name@ + " "@ + self.type_condition.text(
            width,
            depth,
        ) + " "@ + self.selection_set.block_text(width, depth)
    }

    fn display(&self, f: &mut Formatter) {
        f.indent();
        f.write("fragment ");
        f.write(self.name.as_str());
        f.write(" ");
        self.type_condition.display(f);
        f.write(" ");
        self.selection_set.display_block(f);
    }
}

impl Displayable for SelectionSet {
    /// A selection set that stands alone: a block opened on an indented
    /// line of its own.
    open spec fn text(&self, width: nat, depth: nat) -> Seq<char>
        decreases self, 2nat,
    {
        pad(width, depth) + self.block_text(width, depth)
    }

    fn display(&self, f: &mut Formatter)
        decreases self, 2nat,
    {
        f.indent();
        self.display_block(f);
    }
}

impl Displayable for Selection {
    open spec fn text(&self, width: nat, depth: nat) -> Seq<char>
        decreases self, 0nat,
    {
        match self {
            Selection::Field(fld) => fld.text(width, depth),
            Selection::InlineFragment(frag) => frag.text(width, depth),
            Selection::FragmentSpread(frag) => frag.text(width, depth),
        }
    }

    fn display(&self, f: &mut Formatter)
        decreases self, 0nat,
    {
        match self {
            Selection::Field(fld) => fld.display(f),
            Selection::InlineFragment(frag) => frag.display(f),
            Selection::FragmentSpread(frag) => frag.display(f),
        }
    }
}

impl Field {
    /// How the line of a field ends: with the block of its selections
    /// after a space, or, where it has none, with a line terminator.
    pub open spec fn tail_text(&self, width: nat, depth: nat) -> Seq<char>
        decreases self, 0nat,
    {
        if self.selection_set.items@.len() > 0 {
            " "@ + self.selection_set.block_text(width, depth)
        } else {
            seq!['\n']
        }
    }
}

impl Displayable for Field {
    /// The indentation, the alias if there is one, the name, the arguments
    /// if there are any, and the tail.
    open spec fn text(&self, width: nat, depth: nat) -> Seq<char>
        decreases self, 1nat,
    {
        pad(width, depth) + alias_text(self.alias) + self.name@ + argument_clause(
            self.arguments@,
            width,
            depth,
        ) + self.tail_text(width, depth)
    }

    fn display(&self, f: &mut Formatter)
        decreases self, 1nat,
    {
        f.indent();
        if let Some(alias) = &self.alias {
            f.write(alias.as_str());
            f.write(": ");
        }
        f.write(self.name.as_str());
        if self.arguments.len() > 0 {
            f.write("(");
            display_arguments(&self.arguments, f);
            f.write(")");
        }
        if self.selection_set.items.len() > 0 {
            f.write(" ");
            self.selection_set.display_block(f);
        } else {
            f.endline();
        }
    }
}

impl Displayable for Query {
    open spec fn text(&self, width: nat, depth: nat) -> Seq<char> {
        operation_text(
            "query "@,
            self.name,
            self.variable_definitions@,
            &self.selection_set,
            width,
            depth,
        )
    }

    fn display(&self, f: &mut Formatter) {
        display_operation("query ", &self.name, &self.variable_definitions, &self.selection_set, f);
    }
}

impl Displayable for Mutation {
    open spec fn text(&self, width: nat, depth: nat) -> Seq<char> {
        operation_text(
            "mutation "@,
            self.name,
            self.variable_definitions@,
            &self.selection_set,
            width,
            depth,
        )
    }

    fn display(&self, f: &mut Formatter) {
        display_operation(
            "mutation ",
            &self.name,
            &self.variable_definitions,
            &self.selection_set,
            f,
        );
    }
}

impl Displayable for Subscription {
    open spec fn text(&self, width: nat, depth: nat) -> Seq<char> {
        operation_text(
            "subscription "@,
            self.name,
            self.variable_definitions@,
            &self.selection_set,
            width,
            depth,
        )
    }

    fn display(&self, f: &mut Formatter) {
        display_operation(
            "subscription ",
            &self.name,
            &self.variable_definitions,
            &self.selection_set,
            f,
        );
    }
}

impl Displayable for VariableDefinition {
    /// `$name: type`, then ` = value` where there is a default.
    open spec fn text(&self, width: nat, depth: nat) -> Seq<char> {
        "$"@ + self.name@ + ": "@ + self.var_type.text(width, depth) + match self.default_value {
            Some(value) => " = "@ + value.text(width, depth),
            None => Seq::empty(),
        }
    }

    fn display(&self, f: &mut Formatter) {
        f.write("$");
        f.write(self.name.as_str());
        f.write(": ");
        self.var_type.display(f);
        if let Some(default) = &self.default_value {
            f.write(" = ");
            default.display(f);
        }
    }
}

impl Displayable for VariableType {
    /// A name; a list type in square brackets; a non-null type followed by
    /// an exclamation mark.
    open spec fn text(&self, width: nat, depth: nat) -> Seq<char>
        decreases self,
    {
        match self {
            VariableType::NamedType(name) => name@,
            VariableType::ListType(inner) => "["@ + inner.text(width, depth) + "]"@,
            VariableType::NonNullType(inner) => inner.text(width, depth) + "!"@,
        }
    }

    fn display(&self, f: &mut Formatter)
        decreases self,
    {
        match self {
            VariableType::NamedType(name) => f.write(name.as_str()),
            VariableType::ListType(inner) => {
                f.write("[");
                inner.display(f);
                f.write("]");
            },
            VariableType::NonNullType(inner) => {
                inner.display(f);
                f.write("!");
            },
        }
    }
}

impl Displayable for Value {
    /// A value is written inline, whatever its size.
    open spec fn text(&self, width: nat, depth: nat) -> Seq<char>
        decreases self, 0nat,
    {
        match self {
            Value::Variable(name) => "$"@ + name@,
            Value::Int(n) => decimal(*n as int),
            Value::Float(literal) => literal@,
            Value::String(text) => quoted(text@),
            Value::Boolean(b) => if *b {
                "true"@
            } else {
                "false"@
            },
            Value::Null => "null"@,
            Value::EnumValue(name) => name@,
            Value::ListValue(items) => "["@ + joined(value_texts(items@, width, depth), ", "@)
                + "]"@,
            Value::ObjectValue(fields) => if fields@.len() > 0 {
                "{ "@ + arguments_text(fields@, width, depth) + " }"@
            } else {
                "{}"@
            },
        }
    }

    fn display(&self, f: &mut Formatter)
        decreases self, 0nat,
    {
        match self {
            Value::Variable(name) => {
                f.write("$");
                f.write(name.as_str());
            },
            Value::Int(n) => {
                let literal = int_to_text(*n);
                f.write(literal.as_str());
            },
            Value::Float(literal) => f.write(literal.as_str()),
            Value::String(text) => {
                let literal = quote(text.as_str());
                f.write(literal.as_str());
            },
            Value::Boolean(b) => {
                if *b {
                    f.write("true");
                } else {
                    f.write("false");
                }
            },
            Value::Null => f.write("null"),
            Value::EnumValue(name) => f.write(name.as_str()),
            Value::ListValue(items) => {
                f.write("[");
                display_values(items, f);
                f.write("]");
            },
            Value::ObjectValue(fields) => {
                if fields.len() > 0 {
                    f.write("{ ");
                    display_arguments(fields, f);
                    f.write(" }");
                } else {
                    f.write("{}");
                }
            },
        }
    }
}

impl Displayable for InlineFragment {
    /// Three dots, the type condition if there is one, and the block of the
    /// selections.
    open spec fn text(&self, width: nat, depth: nat) -> Seq<char>
        decreases self, 0nat,
    {
        pad(width, depth) + "... "@ + match self.type_condition {
            Some(cond) => cond.text(width, depth) + " "@,
            None => Seq::empty(),
        } + self.selection_set.block_text(width, depth)
    }

    fn display(&self, f: &mut Formatter)
        decreases self, 0nat,
    {
        f.indent();
        f.write("... ");
        if let Some(cond) = &self.type_condition {
            cond.display(f);
            f.write(" ");
        }
        self.selection_set.display_block(f);
    }
}

impl Displayable for TypeCondition {
    open spec fn text(&self, width: nat, depth: nat) -> Seq<char> {
        match self {
            TypeCondition::On(name) => "on "@ + name@,
        }
    }

    fn display(&self, f: &mut Formatter) {
        match self {
            TypeCondition::On(name) => {
                f.write("on ");
                f.write(name.as_str());
            },
        }
    }
}

impl Displayable for FragmentSpread {
    /// Three dots and the fragment's name, on a line of its own.
    open spec fn text(&self, width: nat, depth: nat) -> Seq<char> {
        pad(width, depth) + "..."@ + self.fragment_name@ + seq!['\n']
    }

    fn display(&self, f: &mut Formatter) {
        f.indent();
        f.write("...");
        f.write(self.fragment_name.as_str());
        f.endline();
    }
}

} // verus!
