use query_validation::ast::{
    Argument, Definition, Document, Field, Fragment, FragmentSpread, InlineFragment, InputValue,
    Node, Operation, OperationType, Selection, Type, VariableDefinition, VariableEntry,
};
use query_validation::parser::{SourcePosition, Spanning};
use query_validation::schema::{MetaType, SchemaType, TypeKind};
use query_validation::validation::context::{RuleError, ValidatorContext};
use query_validation::validation::rules::rule_set::{dispatch, Phase, Rule};
use query_validation::validation::rules::variables_are_input_types::{
    error_message, factory, UniqueVariableNames,
};
use query_validation::validation::visitor::{
    validate, visit, visit_definition, visit_selection_set, visit_variable_definitions,
};

fn test_schema() -> SchemaType {
    let mut schema = SchemaType::new();
    schema.add_type(MetaType::new("Int", TypeKind::Scalar));
    schema.add_type(MetaType::new("String", TypeKind::Scalar));
    schema.add_type(MetaType::new("Boolean", TypeKind::Scalar));
    schema.add_type(MetaType::new("ID", TypeKind::Scalar));
    schema.add_type(MetaType::new("DogCommand", TypeKind::Enum));
    schema.add_type(MetaType::new("FurColor", TypeKind::Enum));
    schema.add_type(MetaType::new("ComplexInput", TypeKind::InputObject));
    schema.add_type(MetaType::new("Being", TypeKind::Interface));
    schema.add_type(MetaType::new("Pet", TypeKind::Interface));
    schema.add_type(MetaType::new("Dog", TypeKind::Object));
    schema.add_type(MetaType::new("Cat", TypeKind::Object));
    schema.add_type(MetaType::new("CatOrDog", TypeKind::Union));
    schema.add_type(MetaType::new("QueryRoot", TypeKind::Object));
    schema
}

fn named(name: &str) -> Type {
    Type::Named(name.to_string())
}

fn list(inner: Type) -> Type {
    Type::List(Box::new(inner))
}

fn non_null(inner: Type) -> Type {
    Type::NonNull(Box::new(inner))
}

/// The position of the byte at `index` in `source`, lines and columns from zero.
fn position_at(source: &str, index: usize) -> SourcePosition {
    let mut line = 0;
    let mut col = 0;
    for byte in source.as_bytes()[..index].iter() {
        if *byte == b'\n' {
            line += 1;
            col = 0;
        } else {
            col += 1;
        }
    }
    SourcePosition::new(index, line, col)
}

fn span_of<T>(source: &str, text: &str, item: T) -> Spanning<T> {
    let index = source.find(text).expect("the text occurs in the source");
    Spanning::start_end(
        &position_at(source, index),
        &position_at(source, index + text.len()),
        item,
    )
}

/// The variable declared in `source` as `$name: type_text`.
fn variable(source: &str, name: &str, type_text: &str, var_type: Type) -> VariableEntry {
    let declaration = format!("${}: {}", name, type_text);
    let index = source.find(&declaration).expect("the declaration occurs in the source");
    let name_start = index + 1;
    let type_start = index + name.len() + 3;
    (
        Spanning::start_end(
            &position_at(source, name_start),
            &position_at(source, name_start + name.len()),
            name.to_string(),
        ),
        VariableDefinition {
            var_type: Spanning::start_end(
                &position_at(source, type_start),
                &position_at(source, type_start + type_text.len()),
                var_type,
            ),
            default_value: None,
        },
    )
}

fn argument(source: &str, name: &str) -> Argument {
    let text = format!("{}: ${}", name, name);
    let index = source.find(&text).expect("the argument occurs in the source");
    (
        Spanning::start_end(
            &position_at(source, index),
            &position_at(source, index + name.len()),
            name.to_string(),
        ),
        Spanning::start_end(
            &position_at(source, index + name.len() + 2),
            &position_at(source, index + text.len()),
            InputValue::Variable(name.to_string()),
        ),
    )
}

/// `query Foo(..) { field(a: $a, b: $b, c: $c) }` with the given variables.
fn query_foo(source: &str, variables: Vec<VariableEntry>) -> Document {
    let field = Field {
        alias: None,
        name: span_of(source, "field", "field".to_string()),
        arguments: vec![argument(source, "a"), argument(source, "b"), argument(source, "c")],
        selection_set: None,
    };
    let operation = Operation {
        operation_type: OperationType::Query,
        name: Some(span_of(source, "Foo", "Foo".to_string())),
        variable_definitions: variables,
        selection_set: vec![Selection::Field(span_of(source, "field(", field))],
    };
    vec![Definition::Operation(span_of(source, "query", operation))]
}

fn rule_set() -> Vec<Rule> {
    vec![Rule::VariablesAreInputTypes(factory())]
}

const VALID_SOURCE: &str = r#"
          query Foo($a: String, $b: [Boolean!]!, $c: ComplexInput) {
            field(a: $a, b: $b, c: $c)
          }
        "#;

const INVALID_SOURCE: &str = r#"
          query Foo($a: Dog, $b: [[CatOrDog!]]!, $c: Pet) {
            field(a: $a, b: $b, c: $c)
          }
        "#;

fn valid_document() -> Document {
    query_foo(
        VALID_SOURCE,
        vec![
            variable(VALID_SOURCE, "a", "String", named("String")),
            variable(
                VALID_SOURCE,
                "b",
                "[Boolean!]!",
                non_null(list(non_null(named("Boolean")))),
            ),
            variable(VALID_SOURCE, "c", "ComplexInput", named("ComplexInput")),
        ],
    )
}

fn invalid_document() -> Document {
    query_foo(
        INVALID_SOURCE,
        vec![
            variable(INVALID_SOURCE, "a", "Dog", named("Dog")),
            variable(
                INVALID_SOURCE,
                "b",
                "[[CatOrDog!]]!",
                non_null(list(list(non_null(named("CatOrDog"))))),
            ),
            variable(INVALID_SOURCE, "c", "Pet", named("Pet")),
        ],
    )
}

#[test]
fn input_types_are_valid() {
    let schema = test_schema();
    let errors = validate(&valid_document(), &schema, rule_set());
    assert_eq!(errors, vec![]);
}

#[test]
fn output_types_are_invalid() {
    let schema = test_schema();
    let errors = validate(&invalid_document(), &schema, rule_set());
    assert_eq!(
        errors,
        vec![
            RuleError::new(
                &error_message("a", "Dog"),
                &[SourcePosition::new(25, 1, 24)],
            ),
            RuleError::new(
                &error_message("b", "[[CatOrDog!]]!"),
                &[SourcePosition::new(34, 1, 33)],
            ),
            RuleError::new(
                &error_message("c", "Pet"),
                &[SourcePosition::new(54, 1, 53)],
            ),
        ]
    );
}

#[test]
fn error_message_has_the_exact_text() {
    assert_eq!(
        error_message("a", "Dog"),
        "Variable \"a\" cannot be of non-input type \"Dog\""
    );
    assert_eq!(
        error_message("", ""),
        "Variable \"\" cannot be of non-input type \"\""
    );
    let message = error_message("pets", "[[CatOrDog!]]!");
    assert_eq!(message.len(), 4 + 14 + 42);
    assert_eq!(&message[10..14], "pets");
    assert_eq!(&message[45..59], "[[CatOrDog!]]!");
}

#[test]
fn output_type_messages_are_spelled_out() {
    let schema = test_schema();
    let errors = validate(&invalid_document(), &schema, rule_set());
    assert_eq!(errors.len(), 3);
    assert_eq!(
        errors[0].message(),
        "Variable \"a\" cannot be of non-input type \"Dog\""
    );
    assert_eq!(
        errors[1].message(),
        "Variable \"b\" cannot be of non-input type \"[[CatOrDog!]]!\""
    );
    assert_eq!(
        errors[2].message(),
        "Variable \"c\" cannot be of non-input type \"Pet\""
    );
    for error in errors.iter() {
        assert_eq!(error.locations().len(), 1);
    }
}

#[test]
fn type_is_rendered_as_written() {
    assert_eq!(named("Dog").render(), "Dog");
    assert_eq!(list(named("Dog")).render(), "[Dog]");
    assert_eq!(non_null(named("Dog")).render(), "Dog!");
    assert_eq!(non_null(list(non_null(named("Boolean")))).render(), "[Boolean!]!");
    assert_eq!(
        non_null(list(list(non_null(named("CatOrDog"))))).render(),
        "[[CatOrDog!]]!"
    );
}

#[test]
fn innermost_name_ignores_wrappers() {
    assert_eq!(named("Dog").innermost_name(), "Dog");
    assert_eq!(list(named("Dog")).innermost_name(), "Dog");
    assert_eq!(
        non_null(list(list(non_null(named("CatOrDog"))))).innermost_name(),
        "CatOrDog"
    );
}

#[test]
fn kinds_split_into_input_and_output() {
    assert!(TypeKind::Scalar.is_input());
    assert!(TypeKind::Enum.is_input());
    assert!(TypeKind::InputObject.is_input());
    assert!(!TypeKind::Object.is_input());
    assert!(!TypeKind::Interface.is_input());
    assert!(!TypeKind::Union.is_input());
    let meta = MetaType::new("Dog", TypeKind::Object);
    assert_eq!(meta.name(), "Dog");
    assert_eq!(meta.kind(), TypeKind::Object);
    assert!(!meta.is_input());
}

#[test]
fn schema_lookup_finds_the_first_definition() {
    let mut schema = test_schema();
    schema.add_type(MetaType::new("Dog", TypeKind::Scalar));
    let found = schema.concrete_type_by_name("Dog").expect("Dog is defined");
    assert_eq!(found.name(), "Dog");
    assert_eq!(found.kind(), TypeKind::Object);
    assert!(schema.concrete_type_by_name("Dogs").is_none());
    assert!(schema.concrete_type_by_name("").is_none());
    assert!(SchemaType::new().concrete_type_by_name("Dog").is_none());
}

fn single_variable(name: &str, var_type: Type, index: usize) -> VariableEntry {
    (
        Spanning::unlocated(name.to_string()),
        VariableDefinition {
            var_type: Spanning::start_end(
                &SourcePosition::new(index, 0, index),
                &SourcePosition::new(index + 1, 0, index + 1),
                var_type,
            ),
            default_value: None,
        },
    )
}

fn operation_with(variables: Vec<VariableEntry>) -> Definition {
    Definition::Operation(Spanning::unlocated(Operation {
        operation_type: OperationType::Query,
        name: None,
        variable_definitions: variables,
        selection_set: vec![],
    }))
}

#[test]
fn every_input_kind_passes_under_any_wrapping() {
    let schema = test_schema();
    for name in ["Int", "String", "DogCommand", "FurColor", "ComplexInput"] {
        let document = vec![operation_with(vec![
            single_variable("plain", named(name), 1),
            single_variable("listed", list(named(name)), 2),
            single_variable("required", non_null(named(name)), 3),
            single_variable("deep", non_null(list(list(non_null(named(name))))), 4),
        ])];
        assert_eq!(validate(&document, &schema, rule_set()), vec![]);
    }
}

#[test]
fn every_output_kind_fails_once_under_any_wrapping() {
    let schema = test_schema();
    for name in ["Dog", "Pet", "CatOrDog"] {
        let document = vec![operation_with(vec![
            single_variable("plain", named(name), 1),
            single_variable("deep", non_null(list(list(non_null(named(name))))), 4),
        ])];
        let errors = validate(&document, &schema, rule_set());
        assert_eq!(
            errors,
            vec![
                RuleError::new(
                    &error_message("plain", name),
                    &[SourcePosition::new(1, 0, 1)],
                ),
                RuleError::new(
                    &error_message("deep", &format!("[[{}!]]!", name)),
                    &[SourcePosition::new(4, 0, 4)],
                ),
            ]
        );
    }
}

#[test]
fn unknown_type_names_are_not_reported() {
    let schema = test_schema();
    let document = vec![operation_with(vec![
        single_variable("a", named("Unknown"), 1),
        single_variable("b", non_null(list(named("AlsoUnknown"))), 2),
    ])];
    assert_eq!(validate(&document, &schema, rule_set()), vec![]);
    let empty = SchemaType::new();
    assert_eq!(validate(&invalid_document(), &empty, rule_set()), vec![]);
}

#[test]
fn errors_keep_source_order_across_operations() {
    let schema = test_schema();
    let document = vec![
        operation_with(vec![
            single_variable("first", named("Pet"), 10),
            single_variable("fine", named("Int"), 20),
            single_variable("second", named("Dog"), 30),
        ]),
        operation_with(vec![]),
        operation_with(vec![
            single_variable("missing", named("Nothing"), 40),
            single_variable("third", list(named("CatOrDog")), 50),
            single_variable("fourth", named("Cat"), 60),
        ]),
    ];
    let errors = validate(&document, &schema, rule_set());
    let messages: Vec<&str> = errors.iter().map(|error| error.message()).collect();
    assert_eq!(
        messages,
        vec![
            "Variable \"first\" cannot be of non-input type \"Pet\"",
            "Variable \"second\" cannot be of non-input type \"Dog\"",
            "Variable \"third\" cannot be of non-input type \"[CatOrDog]\"",
            "Variable \"fourth\" cannot be of non-input type \"Cat\"",
        ]
    );
    let indices: Vec<usize> = errors.iter().map(|error| error.locations()[0].index()).collect();
    assert_eq!(indices, vec![10, 30, 50, 60]);
}

#[test]
fn two_runs_return_the_same_errors() {
    let schema = test_schema();
    let document = invalid_document();
    let first = validate(&document, &schema, rule_set());
    let second = validate(&document, &schema, rule_set());
    assert_eq!(first.len(), 3);
    assert_eq!(first, second);
}

#[test]
fn a_rule_set_can_be_used_again() {
    let schema = test_schema();
    let document = invalid_document();
    let mut rules = rule_set();
    let mut first = ValidatorContext::new(&schema);
    visit(&mut rules, &mut first, &document);
    let mut second = ValidatorContext::new(&schema);
    visit(&mut rules, &mut second, &document);
    assert_eq!(rules.len(), 1);
    assert_eq!(first.into_errors(), second.into_errors());
}

#[test]
fn each_rule_of_the_set_reports_in_turn() {
    let schema = test_schema();
    let rules = vec![
        Rule::VariablesAreInputTypes(factory()),
        Rule::VariablesAreInputTypes(factory()),
    ];
    let errors = validate(&invalid_document(), &schema, rules);
    let messages: Vec<&str> = errors.iter().map(|error| error.message()).collect();
    assert_eq!(
        messages,
        vec![
            "Variable \"a\" cannot be of non-input type \"Dog\"",
            "Variable \"a\" cannot be of non-input type \"Dog\"",
            "Variable \"b\" cannot be of non-input type \"[[CatOrDog!]]!\"",
            "Variable \"b\" cannot be of non-input type \"[[CatOrDog!]]!\"",
            "Variable \"c\" cannot be of non-input type \"Pet\"",
            "Variable \"c\" cannot be of non-input type \"Pet\"",
        ]
    );
}

#[test]
fn an_empty_rule_set_reports_nothing() {
    let schema = test_schema();
    assert_eq!(validate(&invalid_document(), &schema, vec![]), vec![]);
}

#[test]
fn an_empty_document_passes() {
    let schema = test_schema();
    assert_eq!(validate(&vec![], &schema, rule_set()), vec![]);
}

#[test]
fn the_rule_reports_into_the_context() {
    let schema = test_schema();
    let mut ctx = ValidatorContext::new(&schema);
    let mut rule: UniqueVariableNames = factory();
    rule.enter_variable_definition(&mut ctx, &single_variable("ok", named("Int"), 3));
    assert!(!ctx.has_errors());
    rule.enter_variable_definition(&mut ctx, &single_variable("gone", named("Nothing"), 5));
    assert!(!ctx.has_errors());
    rule.enter_variable_definition(&mut ctx, &single_variable("pet", list(named("Pet")), 7));
    assert!(ctx.has_errors());
    rule.enter_variable_definition(&mut ctx, &single_variable("pet", list(named("Pet")), 7));
    let errors = ctx.into_errors();
    let expected = RuleError::new(
        "Variable \"pet\" cannot be of non-input type \"[Pet]\"",
        &[SourcePosition::new(7, 0, 7)],
    );
    assert_eq!(errors, vec![expected.clone(), expected]);
}

#[test]
fn the_context_keeps_arrival_order_and_duplicates() {
    let schema = test_schema();
    let mut ctx = ValidatorContext::new(&schema);
    assert!(!ctx.has_errors());
    assert_eq!(
        ctx.concrete_type_by_name("Pet").map(|meta| meta.kind()),
        Some(TypeKind::Interface)
    );
    assert!(ctx.concrete_type_by_name("Nothing").is_none());
    ctx.report_error("second thing", &[SourcePosition::new(9, 2, 1)]);
    ctx.report_error("first thing", &[SourcePosition::new(1, 0, 1), SourcePosition::new(4, 0, 4)]);
    ctx.report_error("second thing", &[SourcePosition::new(9, 2, 1)]);
    let errors = ctx.into_errors();
    assert_eq!(errors.len(), 3);
    assert_eq!(errors[0].message(), "second thing");
    assert_eq!(errors[1].message(), "first thing");
    assert_eq!(
        errors[1].locations(),
        &[SourcePosition::new(1, 0, 1), SourcePosition::new(4, 0, 4)]
    );
    assert_eq!(errors[2], errors[0]);
}

#[test]
fn selections_and_fragments_are_walked_without_reports() {
    let schema = test_schema();
    let inner_field = Field {
        alias: Some(Spanning::unlocated("nick".to_string())),
        name: Spanning::unlocated("name".to_string()),
        arguments: vec![(
            Spanning::unlocated("surname".to_string()),
            Spanning::unlocated(InputValue::Boolean(true)),
        )],
        selection_set: None,
    };
    let inline = InlineFragment {
        type_condition: Some(Spanning::unlocated("Dog".to_string())),
        selection_set: vec![Selection::Field(Spanning::unlocated(inner_field))],
    };
    let outer_field = Field {
        alias: None,
        name: Spanning::unlocated("dog".to_string()),
        arguments: vec![],
        selection_set: Some(vec![
            Selection::InlineFragment(Spanning::unlocated(inline)),
            Selection::FragmentSpread(Spanning::unlocated(FragmentSpread {
                name: Spanning::unlocated("dogFields".to_string()),
            })),
        ]),
    };
    let fragment = Fragment {
        name: Spanning::unlocated("dogFields".to_string()),
        type_condition: Spanning::unlocated("Dog".to_string()),
        selection_set: vec![Selection::Field(Spanning::unlocated(Field {
            alias: None,
            name: Spanning::unlocated("barks".to_string()),
            arguments: vec![],
            selection_set: Some(vec![]),
        }))],
    };
    let operation = Operation {
        operation_type: OperationType::Mutation,
        name: None,
        variable_definitions: vec![single_variable("who", named("Dog"), 12)],
        selection_set: vec![Selection::Field(Spanning::unlocated(outer_field))],
    };
    let document = vec![
        Definition::Fragment(Spanning::unlocated(fragment)),
        Definition::Operation(Spanning::unlocated(operation)),
    ];
    let errors = validate(&document, &schema, rule_set());
    assert_eq!(
        errors,
        vec![RuleError::new(
            "Variable \"who\" cannot be of non-input type \"Dog\"",
            &[SourcePosition::new(12, 0, 12)],
        )]
    );
}

#[test]
fn positions_and_spans_keep_what_they_were_given() {
    let position = SourcePosition::new(25, 1, 24);
    assert_eq!(position.index(), 25);
    assert_eq!(position.line(), 1);
    assert_eq!(position.column(), 24);
    assert_eq!(SourcePosition::new_origin(), SourcePosition::new(0, 0, 0));
    let spanned = Spanning::start_end(&position, &SourcePosition::new(28, 1, 27), "Dog");
    assert_eq!(spanned.item, "Dog");
    assert_eq!(spanned.start, position);
    assert_eq!(spanned.end, SourcePosition::new(28, 1, 27));
    let bare = Spanning::unlocated(7);
    assert_eq!(bare.start, SourcePosition::new_origin());
    assert_eq!(bare.end, SourcePosition::new_origin());
}

#[test]
fn the_written_source_gives_the_reported_positions() {
    let document = invalid_document();
    let starts: Vec<SourcePosition> = match &document[0] {
        Definition::Operation(operation) => operation
            .item
            .variable_definitions
            .iter()
            .map(|entry| entry.1.var_type.start)
            .collect(),
        Definition::Fragment(_) => vec![],
    };
    assert_eq!(
        starts,
        vec![
            SourcePosition::new(25, 1, 24),
            SourcePosition::new(34, 1, 33),
            SourcePosition::new(54, 1, 53),
        ]
    );
}

#[test]
fn only_entering_a_variable_definition_reports() {
    let schema = test_schema();
    let mut rules = rule_set();
    let mut ctx = ValidatorContext::new(&schema);
    let entry = single_variable("pet", named("Pet"), 3);
    let document = invalid_document();
    dispatch(&mut rules, &mut ctx, Phase::Enter, Node::Document(&document));
    dispatch(&mut rules, &mut ctx, Phase::Leave, Node::Document(&document));
    dispatch(&mut rules, &mut ctx, Phase::Leave, Node::VariableDefinition(&entry));
    assert!(!ctx.has_errors());
    dispatch(&mut rules, &mut ctx, Phase::Enter, Node::VariableDefinition(&entry));
    assert_eq!(
        ctx.into_errors(),
        vec![RuleError::new(
            "Variable \"pet\" cannot be of non-input type \"Pet\"",
            &[SourcePosition::new(3, 0, 3)],
        )]
    );
}

#[test]
fn a_rule_is_entered_and_left_on_its_own() {
    let schema = test_schema();
    let mut ctx = ValidatorContext::new(&schema);
    let mut rule = Rule::VariablesAreInputTypes(factory());
    let entry = single_variable("dogs", non_null(list(named("Dog"))), 8);
    rule.leave(&mut ctx, Node::VariableDefinition(&entry));
    assert!(!ctx.has_errors());
    rule.enter(&mut ctx, Node::VariableDefinition(&entry));
    rule.leave(&mut ctx, Node::VariableDefinition(&entry));
    let errors = ctx.into_errors();
    assert_eq!(errors.len(), 1);
    assert_eq!(
        errors[0].message(),
        "Variable \"dogs\" cannot be of non-input type \"[Dog]!\""
    );
    assert_eq!(errors[0].locations(), &[SourcePosition::new(8, 0, 8)]);
}

#[test]
fn a_walk_appends_behind_what_was_reported() {
    let schema = test_schema();
    let mut rules = rule_set();
    let mut ctx = ValidatorContext::new(&schema);
    ctx.report_error("earlier", &[SourcePosition::new(0, 0, 0)]);
    let entries = vec![
        single_variable("x", named("Cat"), 1),
        single_variable("y", named("ID"), 2),
        single_variable("z", named("Being"), 3),
    ];
    visit_variable_definitions(&mut rules, &mut ctx, &entries);
    visit_selection_set(&mut rules, &mut ctx, &vec![]);
    visit_definition(&mut rules, &mut ctx, &operation_with(vec![single_variable("w", named("Dog"), 4)]));
    let errors = ctx.into_errors();
    let messages: Vec<&str> = errors.iter().map(|error| error.message()).collect();
    assert_eq!(
        messages,
        vec![
            "earlier",
            "Variable \"x\" cannot be of non-input type \"Cat\"",
            "Variable \"z\" cannot be of non-input type \"Being\"",
            "Variable \"w\" cannot be of non-input type \"Dog\"",
        ]
    );
}
