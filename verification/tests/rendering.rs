use query_render::ast::{
    Definition, Document, Field, FragmentDefinition, FragmentSpread, InlineFragment, Mutation,
    OperationDefinition, Query, Selection, SelectionSet, Subscription, TypeCondition, Value,
    VariableDefinition, VariableType,
};
use query_render::render::Displayable;
use query_render::writer::{Formatter, Style};

fn leaf(name: &str) -> Field {
    Field {
        alias: None,
        name: name.to_string(),
        arguments: vec![],
        selection_set: SelectionSet { items: vec![] },
    }
}

fn field(
    alias: Option<&str>,
    name: &str,
    arguments: Vec<(&str, Value)>,
    items: Vec<Selection>,
) -> Field {
    Field {
        alias: alias.map(|a| a.to_string()),
        name: name.to_string(),
        arguments: arguments.into_iter().map(|(n, v)| (n.to_string(), v)).collect(),
        selection_set: SelectionSet { items },
    }
}

fn bare(items: Vec<Selection>) -> Document {
    Document {
        definitions: vec![Definition::Operation(OperationDefinition::SelectionSet(SelectionSet {
            items,
        }))],
    }
}

fn shown<T: Displayable>(node: &T, width: usize, depth: usize) -> String {
    let mut f = Formatter::new(&Style { indent_width: width });
    for _ in 0..depth {
        f.start_block();
    }
    let before = f.depth();
    node.display(&mut f);
    assert_eq!(f.depth(), before);
    let text = f.into_string();
    let opening = "{\n".repeat(depth);
    assert!(text.starts_with(&opening));
    text[opening.len()..].to_string()
}

#[test]
fn plain_field_at_depth_one() {
    assert_eq!(shown(&leaf("id"), 2, 1), "  id\n");
    assert_eq!(shown(&Selection::Field(leaf("id")), 2, 1), "  id\n");
}

#[test]
fn plain_field_in_a_document() {
    let doc = bare(vec![Selection::Field(leaf("id"))]);
    assert_eq!(doc.to_string(), "{\n  id\n}\n");
}

#[test]
fn aliased_field_with_argument_and_selection() {
    let user = field(
        Some("u"),
        "user",
        vec![("id", Value::Int(5))],
        vec![Selection::Field(leaf("id"))],
    );
    assert_eq!(shown(&user, 2, 0), "u: user(id: 5) {\n  id\n}\n");
}

#[test]
fn named_query_with_variable() {
    let doc = Document {
        definitions: vec![Definition::Operation(OperationDefinition::Query(Query {
            name: Some("Get".to_string()),
            variable_definitions: vec![VariableDefinition {
                name: "id".to_string(),
                var_type: VariableType::NonNullType(Box::new(VariableType::NamedType(
                    "Int".to_string(),
                ))),
                default_value: None,
            }],
            selection_set: SelectionSet {
                items: vec![Selection::Field(field(
                    None,
                    "user",
                    vec![("id", Value::Variable("id".to_string()))],
                    vec![Selection::Field(leaf("name"))],
                ))],
            },
        }))],
    };
    assert_eq!(
        doc.to_string(),
        "query Get($id: Int!) {\n  user(id: $id) {\n    name\n  }\n}\n"
    );
    assert_eq!(
        doc.format(&Style { indent_width: 4 }),
        "query Get($id: Int!) {\n    user(id: $id) {\n        name\n    }\n}\n"
    );
}

#[test]
fn list_argument_stays_on_the_line() {
    let list = Value::ListValue(vec![Value::Int(1), Value::Int(2), Value::Int(3)]);
    let f = field(None, "f", vec![("arg", list)], vec![]);
    let text = shown(&f, 2, 0);
    assert_eq!(text, "f(arg: [1, 2, 3])\n");
    assert_eq!(text.matches('\n').count(), 1);
}

#[test]
fn inline_fragment_with_type_condition() {
    let frag = InlineFragment {
        type_condition: Some(TypeCondition::On("User".to_string())),
        selection_set: SelectionSet { items: vec![Selection::Field(leaf("name"))] },
    };
    assert_eq!(shown(&frag, 2, 0), "... on User {\n  name\n}\n");
    assert_eq!(shown(&Selection::InlineFragment(frag), 2, 1), "  ... on User {\n    name\n  }\n");
}

#[test]
fn inline_fragment_without_type_condition() {
    let frag = InlineFragment {
        type_condition: None,
        selection_set: SelectionSet { items: vec![Selection::Field(leaf("name"))] },
    };
    assert_eq!(shown(&frag, 2, 0), "... {\n  name\n}\n");
}

#[test]
fn same_document_same_text() {
    let doc = bare(vec![
        Selection::Field(field(
            Some("a"),
            "b",
            vec![("x", Value::Null)],
            vec![Selection::Field(leaf("c"))],
        )),
        Selection::FragmentSpread(FragmentSpread { fragment_name: "Rest".to_string() }),
    ]);
    let style = Style { indent_width: 3 };
    let first = doc.format(&style);
    let second = doc.format(&style);
    assert_eq!(first.as_bytes(), second.as_bytes());
    assert_eq!(first, "{\n   a: b(x: null) {\n      c\n   }\n   ...Rest\n}\n");
}

#[test]
fn rendering_leaves_the_depth_where_it_was() {
    let doc = bare(vec![Selection::Field(field(
        None,
        "a",
        vec![],
        vec![Selection::Field(field(None, "b", vec![], vec![Selection::Field(leaf("c"))]))],
    ))]);
    let mut f = Formatter::new(&Style::default());
    assert_eq!(f.depth(), 0);
    doc.display(&mut f);
    assert_eq!(f.depth(), 0);
    let text = f.into_string();
    assert_eq!(text, "{\n  a {\n    b {\n      c\n    }\n  }\n}\n");
    assert_eq!(text.matches("{\n").count(), text.matches("}\n").count());

    let mut g = Formatter::new(&Style::default());
    g.start_block();
    g.start_block();
    doc.display(&mut g);
    assert_eq!(g.depth(), 2);
}

#[test]
fn selections_keep_their_order() {
    let doc = bare(vec![
        Selection::Field(leaf("zeta")),
        Selection::Field(leaf("alpha")),
        Selection::Field(leaf("zeta")),
        Selection::Field(leaf("mid")),
    ]);
    assert_eq!(doc.to_string(), "{\n  zeta\n  alpha\n  zeta\n  mid\n}\n");
}

#[test]
fn arguments_keep_their_order_and_may_repeat() {
    let f = field(
        None,
        "f",
        vec![("z", Value::Int(1)), ("a", Value::Int(2)), ("z", Value::Int(3))],
        vec![],
    );
    assert_eq!(shown(&f, 2, 0), "f(z: 1, a: 2, z: 3)\n");
}

#[test]
fn each_level_adds_one_indent_width() {
    let doc = bare(vec![Selection::Field(field(
        None,
        "a",
        vec![],
        vec![
            Selection::InlineFragment(InlineFragment {
                type_condition: None,
                selection_set: SelectionSet { items: vec![Selection::Field(leaf("b"))] },
            }),
            Selection::FragmentSpread(FragmentSpread { fragment_name: "F".to_string() }),
        ],
    ))]);
    for width in [0usize, 1, 2, 4, 7] {
        let text = doc.format(&Style { indent_width: width });
        let depths = [0usize, 1, 2, 3, 2, 2, 1, 0];
        let lines: Vec<&str> = text.lines().collect();
        assert_eq!(lines.len(), depths.len());
        for (line, depth) in lines.iter().zip(depths.iter()) {
            let leading = line.len() - line.trim_start_matches(' ').len();
            assert_eq!(leading, depth * width);
        }
    }
    assert_eq!(
        doc.format(&Style { indent_width: 1 }),
        "{\n a {\n  ... {\n   b\n  }\n  ...F\n }\n}\n"
    );
}

#[test]
fn default_style_indents_by_two() {
    assert_eq!(Style::default().indent_width, 2);
    let doc = bare(vec![Selection::Field(leaf("id"))]);
    assert_eq!(doc.to_string(), doc.format(&Style::default()));
    assert_eq!(doc.to_string(), doc.format(&Style { indent_width: 2 }));
}

#[test]
fn empty_document_is_empty_text() {
    let doc = Document { definitions: vec![] };
    assert_eq!(doc.to_string(), "");
}

#[test]
fn definitions_follow_each_other() {
    let doc = Document {
        definitions: vec![
            Definition::Operation(OperationDefinition::SelectionSet(SelectionSet {
                items: vec![Selection::Field(leaf("a"))],
            })),
            Definition::Fragment(FragmentDefinition {
                name: "Part".to_string(),
                type_condition: TypeCondition::On("User".to_string()),
                selection_set: SelectionSet { items: vec![Selection::Field(leaf("b"))] },
            }),
            Definition::Operation(OperationDefinition::Query(Query {
                name: None,
                variable_definitions: vec![],
                selection_set: SelectionSet { items: vec![Selection::Field(leaf("c"))] },
            })),
        ],
    };
    assert_eq!(
        doc.to_string(),
        "{\n  a\n}\nfragment Part on User {\n  b\n}\nquery {\n  c\n}\n"
    );
}

#[test]
fn empty_bare_selection_set() {
    assert_eq!(bare(vec![]).to_string(), "{\n}\n");
    assert_eq!(shown(&SelectionSet { items: vec![] }, 2, 2), "    {\n    }\n");
}

fn int_var(name: &str) -> VariableDefinition {
    VariableDefinition {
        name: name.to_string(),
        var_type: VariableType::NamedType("Int".to_string()),
        default_value: None,
    }
}

#[test]
fn unnamed_query_has_no_head() {
    let q = Query {
        name: None,
        variable_definitions: vec![],
        selection_set: SelectionSet { items: vec![Selection::Field(leaf("a"))] },
    };
    assert_eq!(shown(&q, 2, 0), "query {\n  a\n}\n");
}

#[test]
fn unnamed_query_leaves_its_variables_out() {
    let q = Query {
        name: None,
        variable_definitions: vec![int_var("a")],
        selection_set: SelectionSet { items: vec![Selection::Field(leaf("a"))] },
    };
    assert_eq!(shown(&q, 2, 0), "query {\n  a\n}\n");
}

#[test]
fn named_query_without_variables() {
    let q = Query {
        name: Some("Q".to_string()),
        variable_definitions: vec![],
        selection_set: SelectionSet { items: vec![] },
    };
    assert_eq!(shown(&q, 2, 0), "query Q {\n}\n");
}

#[test]
fn variable_definitions_stand_side_by_side() {
    let q = Query {
        name: Some("Q".to_string()),
        variable_definitions: vec![int_var("a"), int_var("b")],
        selection_set: SelectionSet { items: vec![Selection::Field(leaf("x"))] },
    };
    assert_eq!(shown(&q, 2, 0), "query Q($a: Int$b: Int) {\n  x\n}\n");
}

#[test]
fn mutation_and_subscription_use_their_keyword() {
    let m = Mutation {
        name: Some("M".to_string()),
        variable_definitions: vec![int_var("a")],
        selection_set: SelectionSet { items: vec![Selection::Field(leaf("x"))] },
    };
    assert_eq!(shown(&m, 2, 0), "mutation M($a: Int) {\n  x\n}\n");
    assert_eq!(
        shown(&OperationDefinition::Mutation(m), 2, 1),
        "  mutation M($a: Int) {\n    x\n  }\n"
    );
    let s = Subscription {
        name: None,
        variable_definitions: vec![],
        selection_set: SelectionSet { items: vec![Selection::Field(leaf("x"))] },
    };
    assert_eq!(shown(&s, 2, 0), "subscription {\n  x\n}\n");
    assert_eq!(
        shown(&Definition::Operation(OperationDefinition::Subscription(s)), 2, 0),
        "subscription {\n  x\n}\n"
    );
}

#[test]
fn fragment_definition_and_spread() {
    let def = FragmentDefinition {
        name: "Part".to_string(),
        type_condition: TypeCondition::On("User".to_string()),
        selection_set: SelectionSet {
            items: vec![
                Selection::Field(leaf("name")),
                Selection::FragmentSpread(FragmentSpread { fragment_name: "More".to_string() }),
            ],
        },
    };
    assert_eq!(shown(&def, 2, 0), "fragment Part on User {\n  name\n  ...More\n}\n");
    let spread = FragmentSpread { fragment_name: "More".to_string() };
    assert_eq!(shown(&spread, 2, 2), "    ...More\n");
}

#[test]
fn type_condition_text() {
    assert_eq!(shown(&TypeCondition::On("User".to_string()), 2, 3), "on User");
}

#[test]
fn variable_types_nest() {
    let named = || VariableType::NamedType("Int".to_string());
    assert_eq!(shown(&named(), 2, 0), "Int");
    assert_eq!(shown(&VariableType::ListType(Box::new(named())), 2, 0), "[Int]");
    assert_eq!(shown(&VariableType::NonNullType(Box::new(named())), 2, 0), "Int!");
    let deep = VariableType::NonNullType(Box::new(VariableType::ListType(Box::new(
        VariableType::NonNullType(Box::new(VariableType::ListType(Box::new(named())))),
    ))));
    assert_eq!(shown(&deep, 2, 5), "[[Int]!]!");
}

#[test]
fn variable_definition_with_default() {
    let def = VariableDefinition {
        name: "n".to_string(),
        var_type: VariableType::NamedType("Int".to_string()),
        default_value: Some(Value::Int(10)),
    };
    assert_eq!(shown(&def, 2, 0), "$n: Int = 10");
    assert_eq!(shown(&int_var("n"), 2, 4), "$n: Int");
}

#[test]
fn scalar_values() {
    assert_eq!(shown(&Value::Variable("v".to_string()), 2, 0), "$v");
    assert_eq!(shown(&Value::Boolean(true), 2, 0), "true");
    assert_eq!(shown(&Value::Boolean(false), 2, 0), "false");
    assert_eq!(shown(&Value::Null, 2, 0), "null");
    assert_eq!(shown(&Value::EnumValue("RED".to_string()), 2, 0), "RED");
    assert_eq!(shown(&Value::Float("1.5".to_string()), 2, 0), "1.5");
}

#[test]
fn integer_values() {
    let cases: [(i64, &str); 9] = [
        (0, "0"),
        (7, "7"),
        (10, "10"),
        (-1, "-1"),
        (-10, "-10"),
        (1234567890, "1234567890"),
        (9007199254740993, "9007199254740993"),
        (i64::MAX, "9223372036854775807"),
        (i64::MIN, "-9223372036854775808"),
    ];
    for (n, text) in cases {
        assert_eq!(shown(&Value::Int(n), 2, 0), text);
        assert_eq!(shown(&Value::Int(n), 2, 0), format!("{}", n));
    }
}

#[test]
fn string_values_are_quoted_and_escaped() {
    let cases: [(&str, &str); 9] = [
        ("", "\"\""),
        ("plain", "\"plain\""),
        ("say \"hi\"", "\"say \\\"hi\\\"\""),
        ("a\\b", "\"a\\\\b\""),
        ("line\nbreak", "\"line\\nbreak\""),
        ("tab\there\r", "\"tab\\there\\r\""),
        ("\u{8}\u{c}", "\"\\b\\f\""),
        ("\u{0}\u{1f}\u{b}", "\"\\u0000\\u001F\\u000B\""),
        ("caf\u{e9} \u{1F600} /", "\"caf\u{e9} \u{1F600} /\""),
    ];
    for (text, literal) in cases {
        assert_eq!(shown(&Value::String(text.to_string()), 2, 0), literal);
    }
}

#[test]
fn list_values() {
    assert_eq!(shown(&Value::ListValue(vec![]), 2, 0), "[]");
    assert_eq!(shown(&Value::ListValue(vec![Value::Null]), 2, 0), "[null]");
    let nested = Value::ListValue(vec![
        Value::ListValue(vec![Value::Int(1), Value::Int(2)]),
        Value::ListValue(vec![]),
        Value::String("x".to_string()),
    ]);
    assert_eq!(shown(&nested, 2, 3), "[[1, 2], [], \"x\"]");
}

#[test]
fn object_values() {
    assert_eq!(shown(&Value::ObjectValue(vec![]), 2, 0), "{}");
    let object = Value::ObjectValue(vec![
        ("b".to_string(), Value::Int(1)),
        ("a".to_string(), Value::ListValue(vec![Value::Boolean(true)])),
        ("b".to_string(), Value::ObjectValue(vec![("c".to_string(), Value::Null)])),
    ]);
    assert_eq!(shown(&object, 2, 0), "{ b: 1, a: [true], b: { c: null } }");
}

#[test]
fn field_with_everything() {
    let f = field(
        Some("alias"),
        "name",
        vec![("a", Value::String("s".to_string())), ("b", Value::EnumValue("E".to_string()))],
        vec![
            Selection::Field(leaf("x")),
            Selection::Field(field(None, "y", vec![("n", Value::Int(-3))], vec![])),
        ],
    );
    assert_eq!(
        shown(&f, 2, 1),
        "  alias: name(a: \"s\", b: E) {\n    x\n    y(n: -3)\n  }\n"
    );
}

#[test]
fn field_with_alias_only() {
    assert_eq!(shown(&field(Some("a"), "b", vec![], vec![]), 2, 0), "a: b\n");
}

#[test]
fn items_without_their_braces() {
    let set = SelectionSet {
        items: vec![Selection::Field(leaf("a")), Selection::Field(leaf("b"))],
    };
    let mut f = Formatter::new(&Style::default());
    f.start_block();
    set.display_items(&mut f);
    assert_eq!(f.depth(), 1);
    assert_eq!(f.into_string(), "{\n  a\n  b\n");
}

#[test]
fn block_after_a_head() {
    let set = SelectionSet {
        items: vec![Selection::Field(leaf("a")), Selection::Field(leaf("b"))],
    };
    let mut f = Formatter::new(&Style { indent_width: 4 });
    f.start_block();
    f.indent();
    f.write("head ");
    set.display_block(&mut f);
    assert_eq!(f.depth(), 1);
    assert_eq!(f.into_string(), "{\n    head {\n        a\n        b\n    }\n");
}

#[test]
fn zero_width_style_does_not_indent() {
    let doc = bare(vec![Selection::Field(field(
        None,
        "a",
        vec![],
        vec![Selection::Field(leaf("b"))],
    ))]);
    assert_eq!(doc.format(&Style { indent_width: 0 }), "{\na {\nb\n}\n}\n");
}

#[test]
fn trees_compare_by_content() {
    assert_eq!(leaf("a"), leaf("a"));
    assert_ne!(leaf("a"), leaf("b"));
    assert_eq!(
        Value::ListValue(vec![Value::Int(1), Value::Null]),
        Value::ListValue(vec![Value::Int(1), Value::Null])
    );
    assert_ne!(Value::Int(1), Value::Float("1".to_string()));
}
