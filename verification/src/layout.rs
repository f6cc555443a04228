//! Lines and indentation: where the lines of a rendered node begin.
//!
//! A node at depth `d` begins its own lines with exactly `d` times the
//! indent width in spaces, and no line of what it contains begins with
//! fewer.

use vstd::prelude::*;
use crate::ast::Definition;
use crate::ast::Document;
use crate::ast::Field;
use crate::ast::FragmentSpread;
use crate::ast::InlineFragment;
use crate::ast::OperationDefinition;
use crate::ast::Selection;
use crate::ast::SelectionSet;
use crate::ast::TypeCondition;
use crate::ast::Value;
use crate::ast::VariableDefinition;
use crate::ast::VariableType;
use crate::join::concat;
use crate::join::joined;
use crate::lines::exactly_spaces_at;
use crate::lines::is_line_start;
use crate::lines::lemma_lines_append;
use crate::lines::lemma_lines_concat;
use crate::lines::lemma_lines_weaken;
use crate::lines::lemma_no_break_append;
use crate::lines::lemma_no_break_concat;
use crate::lines::lemma_no_break_joined;
use crate::lines::lemma_single_line;
use crate::lines::lines_indented;
use crate::lines::no_line_break;
use crate::literal::digits;
use crate::literal::escape;
use crate::literal::escapes;
use crate::literal::quoted;
use crate::render::Displayable;
use crate::render::alias_text;
use crate::render::argument_clause;
use crate::render::argument_texts;
use crate::render::arguments_text;
use crate::render::definition_texts;
use crate::render::operation_head;
use crate::render::operation_text;
use crate::render::selection_texts;
use crate::render::value_texts;
use crate::render::variable_clause;
use crate::render::variable_definition_texts;
use crate::writer::block_close;
use crate::writer::block_open;
use crate::writer::pad;
use crate::writer::spaces;

verus! {

/// The names and literal texts in the pairs hold no line terminator.
pub open spec fn pairs_one_line(args: Seq<(String, Value)>) -> bool
    decreases args, 0nat,
{
    forall|i: int|
        #![trigger args[i]]
        0 <= i < args.len() ==> no_line_break(args[i].0@) && args[i].1.one_line()
}

impl Value {
    /// The names and literal texts in the value hold no line terminator.
    /// The text of a string value may hold any: it is written escaped.
    pub open spec fn one_line(&self) -> bool
        decreases self, 0nat,
    {
        match self {
            Value::Variable(name) => no_line_break(name@),
            Value::Float(literal) => no_line_break(literal@),
            Value::EnumValue(name) => no_line_break(name@),
            Value::ListValue(items) => forall|i: int|
                0 <= i < items@.len() ==> (#[trigger] items@[i]).one_line(),
            Value::ObjectValue(fields) => pairs_one_line(fields@),
            _ => true,
        }
    }
}

impl VariableType {
    /// The names in the type hold no line terminator.
    pub open spec fn one_line(&self) -> bool
        decreases self,
    {
        match self {
            VariableType::NamedType(name) => no_line_break(name@),
            VariableType::ListType(inner) => inner.one_line(),
            VariableType::NonNullType(inner) => inner.one_line(),
        }
    }
}

impl VariableDefinition {
    /// The names in the definition, its type and its default hold no line
    /// terminator.
    pub open spec fn one_line(&self) -> bool {
        &&& no_line_break(self.name@)
        &&& self.var_type.one_line()
        &&& match self.default_value {
            Some(value) => value.one_line(),
            None => true,
        }
    }
}

impl TypeCondition {
    /// The type's name holds no line terminator.
    pub open spec fn one_line(&self) -> bool {
        match self {
            TypeCondition::On(name) => no_line_break(name@),
        }
    }
}

impl FragmentSpread {
    /// The fragment's name holds no line terminator.
    pub open spec fn one_line(&self) -> bool {
        no_line_break(self.fragment_name@)
    }
}

impl SelectionSet {
    /// No name or literal text anywhere in the selections holds a line
    /// terminator.
    pub open spec fn one_line(&self) -> bool
        decreases self, 0nat,
    {
        forall|i: int| 0 <= i < self.items@.len() ==> (#[trigger] self.items@[i]).one_line()
    }
}

impl Field {
    /// What stands at the head of the field's line: the alias with its
    /// colon, and the name.
    pub open spec fn label(&self) -> Seq<char> {
        alias_text(self.alias) + self.name@
    }

    /// Neither the alias, the name or the arguments nor anything in the
    /// selections holds a line terminator.
    pub open spec fn one_line(&self) -> bool
        decreases self, 1nat,
    {
        &&& no_line_break(alias_text(self.alias))
        &&& no_line_break(self.name@)
        &&& pairs_one_line(self.arguments@)
        &&& self.selection_set.one_line()
    }
}

impl InlineFragment {
    /// Neither the type condition nor anything in the selections holds a
    /// line terminator.
    pub open spec fn one_line(&self) -> bool
        decreases self, 1nat,
    {
        &&& match self.type_condition {
            Some(cond) => cond.one_line(),
            None => true,
        }
        &&& self.selection_set.one_line()
    }
}

impl Selection {
    /// No name or literal text anywhere in the selection holds a line
    /// terminator.
    pub open spec fn one_line(&self) -> bool
        decreases self, 0nat,
    {
        match self {
            Selection::Field(fld) => fld.one_line(),
            Selection::InlineFragment(frag) => frag.one_line(),
            Selection::FragmentSpread(frag) => frag.one_line(),
        }
    }

    /// The first character after the indentation is no space. This is so
    /// for every fragment; for a field it asks that its label is not empty
    /// and begins with something else than a space.
    pub open spec fn begins_visibly(&self) -> bool {
        match self {
            Selection::Field(fld) => fld.label().len() > 0 && fld.label()[0] != ' ',
            _ => true,
        }
    }
}

/// The names of an operation, the variable definitions included, hold no
/// line terminator, and neither does anything in its selections.
pub open spec fn operation_one_line(
    name: Option<String>,
    defs: Seq<VariableDefinition>,
    set: &SelectionSet,
) -> bool {
    &&& match name {
        Some(name) => no_line_break(name@),
        None => true,
    }
    &&& forall|i: int| 0 <= i < defs.len() ==> (#[trigger] defs[i]).one_line()
    &&& set.one_line()
}

impl Definition {
    /// No name or literal text anywhere in the definition holds a line
    /// terminator.
    pub open spec fn one_line(&self) -> bool {
        match self {
            Definition::Operation(OperationDefinition::SelectionSet(set)) => set.one_line(),
            Definition::Operation(OperationDefinition::Query(q)) => operation_one_line(
                q.name,
                q.variable_definitions@,
                &q.selection_set,
            ),
            Definition::Operation(OperationDefinition::Mutation(m)) => operation_one_line(
                m.name,
                m.variable_definitions@,
                &m.selection_set,
            ),
            Definition::Operation(OperationDefinition::Subscription(s)) => operation_one_line(
                s.name,
                s.variable_definitions@,
                &s.selection_set,
            ),
            Definition::Fragment(frag) => {
                &&& no_line_break(frag.name@)
                &&& frag.type_condition.one_line()
                &&& frag.selection_set.one_line()
            },
        }
    }
}

impl Document {
    /// No name or literal text anywhere in the document holds a line
    /// terminator.
    pub open spec fn one_line(&self) -> bool {
        forall|i: int|
            0 <= i < self.definitions@.len() ==> (#[trigger] self.definitions@[i]).one_line()
    }
}

/// The punctuation of the rules holds no line terminator.
proof fn lemma_punctuation()
    ensures
        no_line_break("$"@),
        no_line_break("["@),
        no_line_break("]"@),
        no_line_break("!"@),
        no_line_break("("@),
        no_line_break(")"@),
        no_line_break(" "@),
        no_line_break(", "@),
        no_line_break(": "@),
        no_line_break(" = "@),
        no_line_break("{ "@),
        no_line_break(" }"@),
        no_line_break("{}"@),
        no_line_break("true"@),
        no_line_break("false"@),
        no_line_break("null"@),
        no_line_break("on "@),
        no_line_break("..."@),
        no_line_break("... "@),
{
    reveal_strlit("$");
    reveal_strlit("[");
    reveal_strlit("]");
    reveal_strlit("!");
    reveal_strlit("(");
    reveal_strlit(")");
    reveal_strlit(" ");
    reveal_strlit(", ");
    reveal_strlit(": ");
    reveal_strlit(" = ");
    reveal_strlit("{ ");
    reveal_strlit(" }");
    reveal_strlit("{}");
    reveal_strlit("true");
    reveal_strlit("false");
    reveal_strlit("null");
    reveal_strlit("on ");
    reveal_strlit("...");
    reveal_strlit("... ");
}

/// The keywords hold no line terminator and do not begin with a space.
proof fn lemma_keywords()
    ensures
        no_line_break("query "@),
        no_line_break("mutation "@),
        no_line_break("subscription "@),
        no_line_break("fragment "@),
        "query "@.len() > 0 && "query "@[0] != ' ',
        "mutation "@.len() > 0 && "mutation "@[0] != ' ',
        "subscription "@.len() > 0 && "subscription "@[0] != ' ',
        "fragment "@.len() > 0 && "fragment "@[0] != ' ',
{
    reveal_strlit("query ");
    reveal_strlit("mutation ");
    reveal_strlit("subscription ");
    reveal_strlit("fragment ");
}

proof fn lemma_digits_one_line(n: nat)
    ensures
        no_line_break(digits(n)),
    decreases n,
{
    if n >= 10 {
        lemma_digits_one_line(n / 10);
    }
}

proof fn lemma_quoted_one_line(text: Seq<char>)
    ensures
        no_line_break(quoted(text)),
{
    let parts = escapes(text);
    assert forall|k: int| 0 <= k < parts.len() implies no_line_break(#[trigger] parts[k]) by {
        let c = text[k];
        assert(parts[k] == escape(c));
    }
    lemma_no_break_concat(parts);
    lemma_no_break_append(seq!['"'], concat(parts));
    lemma_no_break_append(seq!['"'] + concat(parts), seq!['"']);
}

/// A value whose names hold no line terminator is written on one line.
pub proof fn lemma_value_one_line(value: &Value, width: nat, depth: nat)
    requires
        value.one_line(),
    ensures
        no_line_break(value.text(width, depth)),
    decreases value, 0nat,
{
    lemma_punctuation();
    match value {
        Value::Variable(name) => {
            lemma_no_break_append("$"@, name@);
        },
        Value::Int(n) => {
            if *n < 0 {
                lemma_digits_one_line((-*n) as nat);
                lemma_no_break_append(seq!['-'], digits((-*n) as nat));
            } else {
                lemma_digits_one_line(*n as nat);
            }
        },
        Value::String(text) => {
            lemma_quoted_one_line(text@);
        },
        Value::ListValue(items) => {
            let parts = value_texts(items@, width, depth);
            assert forall|k: int| 0 <= k < parts.len() implies no_line_break(
                #[trigger] parts[k],
            ) by {
                lemma_value_one_line(&items@[k], width, depth);
            }
            lemma_no_break_joined(parts, ", "@);
            lemma_no_break_append("["@, joined(parts, ", "@));
            lemma_no_break_append("["@ + joined(parts, ", "@), "]"@);
        },
        Value::ObjectValue(fields) => {
            if fields@.len() > 0 {
                lemma_arguments_one_line(fields@, width, depth);
                lemma_no_break_append("{ "@, arguments_text(fields@, width, depth));
                lemma_no_break_append("{ "@ + arguments_text(fields@, width, depth), " }"@);
            }
        },
        _ => {},
    }
}

/// Pairs whose names hold no line terminator are written on one line.
pub proof fn lemma_arguments_one_line(args: Seq<(String, Value)>, width: nat, depth: nat)
    requires
        pairs_one_line(args),
    ensures
        no_line_break(arguments_text(args, width, depth)),
    decreases args, 1nat,
{
    lemma_punctuation();
    let parts = argument_texts(args, width, depth);
    assert forall|k: int| 0 <= k < parts.len() implies no_line_break(#[trigger] parts[k]) by {
        assert(no_line_break(args[k].0@) && args[k].1.one_line());
        lemma_value_one_line(&args[k].1, width, depth);
        lemma_no_break_append(args[k].0@, ": "@);
        lemma_no_break_append(args[k].0@ + ": "@, args[k].1.text(width, depth));
    }
    lemma_no_break_joined(parts, ", "@);
}

proof fn lemma_variable_type_one_line(var_type: &VariableType, width: nat, depth: nat)
    requires
        var_type.one_line(),
    ensures
        no_line_break(var_type.text(width, depth)),
    decreases var_type,
{
    lemma_punctuation();
    match var_type {
        VariableType::NamedType(name) => {},
        VariableType::ListType(inner) => {
            lemma_variable_type_one_line(inner, width, depth);
            lemma_no_break_append("["@, inner.text(width, depth));
            lemma_no_break_append("["@ + inner.text(width, depth), "]"@);
        },
        VariableType::NonNullType(inner) => {
            lemma_variable_type_one_line(inner, width, depth);
            lemma_no_break_append(inner.text(width, depth), "!"@);
        },
    }
}

proof fn lemma_variable_definition_one_line(def: &VariableDefinition, width: nat, depth: nat)
    requires
        def.one_line(),
    ensures
        no_line_break(def.text(width, depth)),
{
    lemma_punctuation();
    lemma_variable_type_one_line(&def.var_type, width, depth);
    lemma_no_break_append("$"@, def.name@);
    lemma_no_break_append("$"@ + def.name@, ": "@);
    let head = "$"@ + def.name@ + ": "@ + def.var_type.text(width, depth);
    lemma_no_break_append("$"@ + def.name@ + ": "@, def.var_type.text(width, depth));
    match def.default_value {
        Some(value) => {
            lemma_value_one_line(&value, width, depth);
            lemma_no_break_append(" = "@, value.text(width, depth));
            lemma_no_break_append(head, " = "@ + value.text(width, depth));
        },
        None => {
            assert(head + Seq::<char>::empty() == head);
        },
    }
}

proof fn lemma_type_condition_one_line(cond: &TypeCondition, width: nat, depth: nat)
    requires
        cond.one_line(),
    ensures
        no_line_break(cond.text(width, depth)),
{
    lemma_punctuation();
    match cond {
        TypeCondition::On(name) => {
            lemma_no_break_append("on "@, name@);
        },
    }
}

proof fn lemma_argument_clause_one_line(args: Seq<(String, Value)>, width: nat, depth: nat)
    requires
        pairs_one_line(args),
    ensures
        no_line_break(argument_clause(args, width, depth)),
{
    lemma_punctuation();
    if args.len() > 0 {
        lemma_arguments_one_line(args, width, depth);
        lemma_no_break_append("("@, arguments_text(args, width, depth));
        lemma_no_break_append("("@ + arguments_text(args, width, depth), ")"@);
    }
}

proof fn lemma_operation_head_one_line(
    name: Option<String>,
    defs: Seq<VariableDefinition>,
    width: nat,
    depth: nat,
)
    requires
        match name {
            Some(name) => no_line_break(name@),
            None => true,
        },
        forall|i: int| 0 <= i < defs.len() ==> (#[trigger] defs[i]).one_line(),
    ensures
        no_line_break(operation_head(name, defs, width, depth)),
{
    lemma_punctuation();
    match name {
        Some(name) => {
            if defs.len() > 0 {
                let parts = variable_definition_texts(defs, width, depth);
                assert forall|k: int| 0 <= k < parts.len() implies no_line_break(
                    #[trigger] parts[k],
                ) by {
                    lemma_variable_definition_one_line(&defs[k], width, depth);
                }
                lemma_no_break_concat(parts);
                lemma_no_break_append("("@, concat(parts));
                lemma_no_break_append("("@ + concat(parts), ")"@);
            }
            lemma_no_break_append(name@, variable_clause(defs, width, depth));
            lemma_no_break_append(name@ + variable_clause(defs, width, depth), " "@);
        },
        None => {},
    }
}

/// The selections of a set, rendered at depth `depth`, are whole lines that
/// each begin with at least the indentation of that depth.
pub proof fn lemma_items_lines_indented(set: &SelectionSet, width: nat, depth: nat)
    requires
        set.one_line(),
    ensures
        lines_indented(set.items_text(width, depth), width * depth),
    decreases set, 0nat,
{
    let parts = selection_texts(set.items@, width, depth);
    assert forall|k: int| 0 <= k < parts.len() implies lines_indented(
        #[trigger] parts[k],
        width * depth,
    ) by {
        lemma_selection_lines_indented(&set.items@[k], width, depth);
    }
    lemma_lines_concat(parts, width * depth);
}

/// A line at depth `depth` that ends by opening the block of `set` is
/// followed by lines that begin with at least the indentation of `depth`,
/// the line of the closing brace included.
pub proof fn lemma_headed_block_lines_indented(
    head: Seq<char>,
    set: &SelectionSet,
    width: nat,
    depth: nat,
)
    requires
        no_line_break(head),
        set.one_line(),
    ensures
        lines_indented(pad(width, depth) + head + set.block_text(width, depth), width * depth),
    decreases set, 1nat,
{
    let n = width * depth;
    let first = spaces(n) + (head + seq!['{']) + seq!['\n'];
    let inner = set.items_text(width, depth + 1);
    let last = spaces(n) + seq!['}'] + seq!['\n'];
    lemma_no_break_append(head, seq!['{']);
    lemma_single_line(n, head + seq!['{']);
    lemma_single_line(n, seq!['}']);
    lemma_items_lines_indented(set, width, depth + 1);
    assert(width * depth <= width * (depth + 1)) by (nonlinear_arith);
    lemma_lines_weaken(inner, width * (depth + 1), n);
    lemma_lines_append(first, inner, n);
    lemma_lines_append(first + inner, last, n);
    assert(pad(width, depth) + head + set.block_text(width, depth) == first + inner + last);
}

/// Every line of a selection rendered at depth `depth` begins with at least
/// `width * depth` spaces, and the text is made of whole lines.
///
/// This is asked of no selection that holds a line terminator in one of its
/// names: such a name breaks its line wherever it stands.
pub proof fn lemma_selection_lines_indented(selection: &Selection, width: nat, depth: nat)
    requires
        selection.one_line(),
    ensures
        lines_indented(selection.text(width, depth), width * depth),
    decreases selection, 0nat,
{
    lemma_punctuation();
    let n = width * depth;
    match selection {
        Selection::Field(fld) => {
            let head = alias_text(fld.alias) + fld.name@ + argument_clause(
                fld.arguments@,
                width,
                depth,
            );
            lemma_argument_clause_one_line(fld.arguments@, width, depth);
            lemma_no_break_append(alias_text(fld.alias), fld.name@);
            lemma_no_break_append(
                alias_text(fld.alias) + fld.name@,
                argument_clause(fld.arguments@, width, depth),
            );
            if fld.selection_set.items@.len() > 0 {
                lemma_no_break_append(head, " "@);
                lemma_headed_block_lines_indented(head + " "@, &fld.selection_set, width, depth);
                assert(fld.text(width, depth) == pad(width, depth) + (head + " "@)
                    + fld.selection_set.block_text(width, depth));
            } else {
                lemma_single_line(n, head);
                assert(fld.text(width, depth) == spaces(n) + head + seq!['\n']);
            }
        },
        Selection::InlineFragment(frag) => {
            let cond = match frag.type_condition {
                Some(cond) => cond.text(width, depth) + " "@,
                None => Seq::empty(),
            };
            match frag.type_condition {
                Some(c) => {
                    lemma_type_condition_one_line(&c, width, depth);
                    lemma_no_break_append(c.text(width, depth), " "@);
                },
                None => {},
            }
            lemma_no_break_append("... "@, cond);
            lemma_headed_block_lines_indented("... "@ + cond, &frag.selection_set, width, depth);
            assert(frag.text(width, depth) == pad(width, depth) + ("... "@ + cond)
                + frag.selection_set.block_text(width, depth));
        },
        Selection::FragmentSpread(frag) => {
            lemma_no_break_append("..."@, frag.fragment_name@);
            lemma_single_line(n, "..."@ + frag.fragment_name@);
            assert(frag.text(width, depth) == spaces(n) + ("..."@ + frag.fragment_name@)
                + seq!['\n']);
        },
    }
}

proof fn lemma_operation_lines_indented(
    keyword: Seq<char>,
    name: Option<String>,
    defs: Seq<VariableDefinition>,
    set: &SelectionSet,
    width: nat,
    depth: nat,
)
    requires
        no_line_break(keyword),
        operation_one_line(name, defs, set),
    ensures
        lines_indented(operation_text(keyword, name, defs, set, width, depth), width * depth),
{
    let head = keyword + operation_head(name, defs, width, depth);
    lemma_operation_head_one_line(name, defs, width, depth);
    lemma_no_break_append(keyword, operation_head(name, defs, width, depth));
    lemma_headed_block_lines_indented(head, set, width, depth);
    assert(operation_text(keyword, name, defs, set, width, depth) == pad(width, depth) + head
        + set.block_text(width, depth));
}

/// Every line of a definition rendered at depth `depth` begins with at
/// least `width * depth` spaces, and the text is made of whole lines.
///
/// This is asked of no definition that holds a line terminator in one of
/// its names.
pub proof fn lemma_definition_lines_indented(definition: &Definition, width: nat, depth: nat)
    requires
        definition.one_line(),
    ensures
        lines_indented(definition.text(width, depth), width * depth),
{
    lemma_punctuation();
    lemma_keywords();
    match definition {
        Definition::Operation(OperationDefinition::SelectionSet(set)) => {
            lemma_headed_block_lines_indented(Seq::empty(), set, width, depth);
            assert(set.text(width, depth) == pad(width, depth) + Seq::<char>::empty()
                + set.block_text(width, depth));
        },
        Definition::Operation(OperationDefinition::Query(q)) => {
            lemma_operation_lines_indented(
                "query "@,
                q.name,
                q.variable_definitions@,
                &q.selection_set,
                width,
                depth,
            );
        },
        Definition::Operation(OperationDefinition::Mutation(m)) => {
            lemma_operation_lines_indented(
                "mutation "@,
                m.name,
                m.variable_definitions@,
                &m.selection_set,
                width,
                depth,
            );
        },
        Definition::Operation(OperationDefinition::Subscription(s)) => {
            lemma_operation_lines_indented(
                "subscription "@,
                s.name,
                s.variable_definitions@,
                &s.selection_set,
                width,
                depth,
            );
        },
        Definition::Fragment(frag) => {
            let cond = frag.type_condition.text(width, depth);
            let head = "fragment "@ + frag.name@ + " "@ + cond + " "@;
            lemma_type_condition_one_line(&frag.type_condition, width, depth);
            lemma_no_break_append("fragment "@, frag.name@);
            lemma_no_break_append("fragment "@ + frag.name@, " "@);
            lemma_no_break_append("fragment "@ + frag.name@ + " "@, cond);
            lemma_no_break_append("fragment "@ + frag.name@ + " "@ + cond, " "@);
            lemma_headed_block_lines_indented(head, &frag.selection_set, width, depth);
            assert(frag.text(width, depth) == pad(width, depth) + head
                + frag.selection_set.block_text(width, depth));
        },
    }
}

/// Every line of a document rendered at depth `depth` begins with at least
/// `width * depth` spaces, and the text is made of whole lines.
///
/// This is asked of no document that holds a line terminator in one of its
/// names.
pub proof fn lemma_document_lines_indented(document: &Document, width: nat, depth: nat)
    requires
        document.one_line(),
    ensures
        lines_indented(document.text(width, depth), width * depth),
{
    let parts = definition_texts(document.definitions@, width, depth);
    assert forall|k: int| 0 <= k < parts.len() implies lines_indented(
        #[trigger] parts[k],
        width * depth,
    ) by {
        lemma_definition_lines_indented(&document.definitions@[k], width, depth);
    }
    lemma_lines_concat(parts, width * depth);
}

/// The first line of a definition rendered at depth `depth` begins with
/// exactly `width * depth` spaces: after them stands the keyword, or the
/// opening brace of a bare selection set.
pub proof fn lemma_definition_begins_at_indent(definition: &Definition, width: nat, depth: nat)
    ensures
        exactly_spaces_at(definition.text(width, depth), 0, width * depth),
{
    let n = width * depth;
    let text = definition.text(width, depth);
    lemma_keywords();
    match definition {
        Definition::Operation(OperationDefinition::SelectionSet(set)) => {
            assert(text == spaces(n) + block_open() + (set.items_text(width, depth + 1)
                + block_close(width, depth)));
            assert(text[n as int] == block_open()[0]);
        },
        Definition::Operation(OperationDefinition::Query(q)) => {
            let rest = operation_head(q.name, q.variable_definitions@, width, depth)
                + q.selection_set.block_text(width, depth);
            assert(text == spaces(n) + "query "@ + rest);
            assert(text[n as int] == "query "@[0]);
        },
        Definition::Operation(OperationDefinition::Mutation(m)) => {
            let rest = operation_head(m.name, m.variable_definitions@, width, depth)
                + m.selection_set.block_text(width, depth);
            assert(text == spaces(n) + "mutation "@ + rest);
            assert(text[n as int] == "mutation "@[0]);
        },
        Definition::Operation(OperationDefinition::Subscription(s)) => {
            let rest = operation_head(s.name, s.variable_definitions@, width, depth)
                + s.selection_set.block_text(width, depth);
            assert(text == spaces(n) + "subscription "@ + rest);
            assert(text[n as int] == "subscription "@[0]);
        },
        Definition::Fragment(frag) => {
            let rest = frag.name@ + " "@ + frag.type_condition.text(width, depth) + " "@
                + frag.selection_set.block_text(width, depth);
            assert(text == spaces(n) + "fragment "@ + rest);
            assert(text[n as int] == "fragment "@[0]);
        },
    }
    assert forall|k: int| 0 <= k < n implies #[trigger] text[0 + k] == ' ' by {
        assert(text[k] == spaces(n)[k]);
    }
}

/// The first line of a selection rendered at depth `depth` begins with
/// exactly `width * depth` spaces.
///
/// This is asked of no field whose label is empty or begins with a space:
/// the writer takes names as they are.
pub proof fn lemma_selection_begins_at_indent(selection: &Selection, width: nat, depth: nat)
    requires
        selection.begins_visibly(),
    ensures
        exactly_spaces_at(selection.text(width, depth), 0, width * depth),
{
    let n = width * depth;
    let text = selection.text(width, depth);
    reveal_strlit("...");
    reveal_strlit("... ");
    match selection {
        Selection::Field(fld) => {
            let rest = argument_clause(fld.arguments@, width, depth) + fld.tail_text(
                width,
                depth,
            );
            assert(text == spaces(n) + fld.label() + rest);
            assert(text[n as int] == fld.label()[0]);
        },
        Selection::InlineFragment(frag) => {
            let cond = match frag.type_condition {
                Some(cond) => cond.text(width, depth) + " "@,
                None => Seq::empty(),
            };
            assert(text == spaces(n) + "... "@ + (cond + frag.selection_set.block_text(
                width,
                depth,
            )));
            assert(text[n as int] == "... "@[0]);
        },
        Selection::FragmentSpread(frag) => {
            assert(text == spaces(n) + "..."@ + (frag.fragment_name@ + seq!['\n']));
            assert(text[n as int] == "..."@[0]);
        },
    }
    assert forall|k: int| 0 <= k < n implies #[trigger] text[0 + k] == ' ' by {
        assert(text[k] == spaces(n)[k]);
    }
}

/// A selection ends its last line.
pub proof fn lemma_selection_ends_line(selection: &Selection, width: nat, depth: nat)
    ensures
        selection.text(width, depth).len() > 0,
        selection.text(width, depth).last() == '\n',
{
    match selection {
        Selection::Field(fld) => {},
        Selection::InlineFragment(frag) => {},
        Selection::FragmentSpread(frag) => {},
    }
}

/// A block opened at depth `depth` is closed at that depth: whatever text
/// the block follows, the closing brace stands on the last line, a line of
/// its own, after exactly `width * depth` spaces.
pub proof fn lemma_block_closes_at_indent(
    before: Seq<char>,
    set: &SelectionSet,
    width: nat,
    depth: nat,
)
    ensures
        ({
            let text = before + set.block_text(width, depth);
            let n = width * depth;
            let last_line = text.len() - (n + 2);
            &&& is_line_start(text, last_line)
            &&& exactly_spaces_at(text, last_line, n)
            &&& text[last_line + n] == '}'
            &&& text[last_line + n + 1] == '\n'
            &&& last_line + n + 2 == text.len()
        }),
{
    let n = width * depth;
    let inner = set.items_text(width, depth + 1);
    let text = before + set.block_text(width, depth);
    let last_line = text.len() - (n + 2);
    let parts = selection_texts(set.items@, width, depth + 1);
    assert(text == before + block_open() + inner + spaces(n) + seq!['}', '\n']);
    if parts.len() > 0 {
        lemma_selection_ends_line(&set.items@[parts.len() - 1], width, depth + 1);
        assert(inner == concat(parts.drop_last()) + parts.last());
        assert(text[last_line - 1] == parts.last().last());
    } else {
        assert(inner.len() == 0);
        assert(text[last_line - 1] == block_open()[1]);
    }
    assert forall|k: int| 0 <= k < n implies #[trigger] text[last_line + k] == ' ' by {
        assert(text[last_line + k] == spaces(n)[k]);
    }
}

} // verus!
