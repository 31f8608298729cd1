//! Whole sessions with a builder, from the first menu to the value.

use ibuilder::builder;
use ibuilder::nodes::{Field, FieldKind, Node};
use ibuilder::schema::{
    EnumGenerator, EnumVariant, Generator, StructField, StructGenerator, Type, Types, VariantKind,
};
use ibuilder::value::{Plain, Value};
use ibuilder::{Builder, ChooseError, FinalizeError, Input, Options, BACK_ID, FINALIZE_ID};

fn ids(options: &Options) -> Vec<&str> {
    options.choices.iter().map(|c| c.choice_id.as_str()).collect()
}

fn texts(options: &Options) -> Vec<&str> {
    options.choices.iter().map(|c| c.text.as_str()).collect()
}

fn no_types() -> Types {
    Types::new(vec![]).expect("valid types")
}

/// `struct Record { a: i64, b: i64 = 42 }`
fn record_builder() -> Builder {
    let record = StructGenerator::new(
        "Record",
        vec![
            StructField::new("a", Type::Plain(Plain::I64)),
            StructField::new("b", Type::Plain(Plain::I64)).with_default(Value::I64(42)),
        ],
    );
    let types = Types::new(vec![Generator::Struct(record)]).expect("valid types");
    builder(types, &Type::Named(0)).expect("a known type")
}

/// `enum Union { Var(i32), Empty }`
fn union_builder() -> Builder {
    let union = EnumGenerator::new(
        "Union",
        vec![
            EnumVariant::new(
                "Var",
                VariantKind::Unnamed(vec![StructField::new("0", Type::Plain(Plain::I32))]),
            ),
            EnumVariant::new("Empty", VariantKind::Empty),
        ],
    );
    let types = Types::new(vec![Generator::Enum(union)]).expect("valid types");
    builder(types, &Type::Named(0)).expect("a known type")
}

#[test]
fn record_with_a_default_field() {
    let mut builder = record_builder();

    let options = builder.get_options();
    assert_eq!(options.query, "Select the field to edit");
    assert!(!options.text_input);
    assert_eq!(ids(&options), vec!["a", "b"]);
    assert_eq!(texts(&options), vec!["Edit a", "Edit b"]);
    assert!(options.choices[0].needs_action);
    assert!(!options.choices[1].needs_action);
    assert!(!builder.is_done());
    assert_eq!(builder.finalize(), Err(FinalizeError::MissingField));

    assert_eq!(builder.choose_input(Input::choice("a")), Ok(None));
    let options = builder.get_options();
    assert_eq!(options.query, "Type an integer");
    assert!(options.text_input);
    assert_eq!(ids(&options), vec![BACK_ID]);
    assert_eq!(texts(&options), vec!["Go back"]);

    assert_eq!(builder.choose_input(Input::text("7")), Ok(None));
    let options = builder.get_options();
    assert_eq!(ids(&options), vec!["a", "b", FINALIZE_ID]);
    assert_eq!(texts(&options), vec!["Edit a", "Edit b", "Done"]);
    assert!(!options.choices[0].needs_action);
    assert!(builder.is_done());

    let expected = Value::Record(
        "Record".to_string(),
        vec![("a".to_string(), Value::I64(7)), ("b".to_string(), Value::I64(42))],
    );
    assert_eq!(builder.choose_input(Input::choice(FINALIZE_ID)), Ok(Some(Value::Record(
        "Record".to_string(),
        vec![("a".to_string(), Value::I64(7)), ("b".to_string(), Value::I64(42))],
    ))));
    assert_eq!(builder.finalize(), Ok(expected));
}

#[test]
fn list_of_integers() {
    let mut builder =
        builder(no_types(), &Type::List(Box::new(Type::Plain(Plain::I32)))).expect("a known type");

    // the empty list is a value, so that the building can end at once
    let options = builder.get_options();
    assert_eq!(options.query, "Select an action");
    assert_eq!(ids(&options), vec!["__new", FINALIZE_ID]);
    assert_eq!(texts(&options), vec!["New element", "Done"]);
    assert_eq!(builder.finalize(), Ok(Value::List(vec![])));

    // a new item, which the path then leads to
    assert_eq!(builder.choose_input(Input::choice("__new")), Ok(None));
    let options = builder.get_options();
    assert!(options.text_input);
    assert_eq!(options.query, "Type an integer");
    assert_eq!(ids(&options), vec![BACK_ID]);
    assert!(!builder.is_done());

    assert_eq!(builder.choose_input(Input::text("5")), Ok(None));
    let options = builder.get_options();
    assert!(!options.text_input);
    assert_eq!(ids(&options), vec!["__new", "__remove", "0", FINALIZE_ID]);
    assert_eq!(texts(&options), vec!["New element", "Remove element", "Edit item 0", "Done"]);
    assert!(!options.choices[2].needs_action);
    assert_eq!(builder.finalize(), Ok(Value::List(vec![Value::I32(5)])));

    assert_eq!(builder.choose_input(Input::choice("__remove")), Ok(None));
    let options = builder.get_options();
    assert_eq!(options.query, "Select the item to remove");
    assert_eq!(ids(&options), vec!["0", BACK_ID]);
    assert_eq!(texts(&options), vec!["Remove item 0", "Go back"]);

    assert_eq!(builder.choose_input(Input::choice("0")), Ok(None));
    let options = builder.get_options();
    assert_eq!(ids(&options), vec!["__new", FINALIZE_ID]);
    assert_eq!(builder.finalize(), Ok(Value::List(vec![])));
}

#[test]
fn union_of_a_variant_with_a_field_and_an_empty_one() {
    let mut builder = union_builder();
    let options = builder.get_options();
    assert_eq!(options.query, "Select a variant");
    assert_eq!(ids(&options), vec!["Var", "Empty"]);
    assert!(!builder.is_done());
    assert_eq!(builder.to_node(), Node::Leaf(Field::Missing));

    // the empty variant is complete at once, and the path stays at the main menu
    assert_eq!(builder.choose_input(Input::choice("Empty")), Ok(None));
    assert!(builder.is_done());
    assert_eq!(builder.finalize(), Ok(Value::Unit("Empty".to_string())));
    assert_eq!(builder.to_node(), Node::Leaf(Field::String("Empty".to_string())));
    assert_eq!(ids(&builder.get_options()), vec!["Var", "Empty", FINALIZE_ID]);

    // the variant with a field waits for the field
    assert_eq!(builder.choose_input(Input::choice("Var")), Ok(None));
    assert!(!builder.is_done());
    let options = builder.get_options();
    assert!(options.text_input);
    assert_eq!(ids(&options), vec![BACK_ID]);
    assert_eq!(
        builder.to_node(),
        Node::Composite("Var".to_string(), vec![FieldKind::Unnamed(Node::Leaf(Field::Missing))])
    );
    assert_eq!(builder.choose_input(Input::text("3")), Ok(None));
    assert!(builder.is_done());
    assert_eq!(
        builder.finalize(),
        Ok(Value::Wrapper("Var".to_string(), Box::new(Value::I32(3))))
    );
    let options = builder.get_options();
    assert_eq!(ids(&options), vec!["Var", "Empty", FINALIZE_ID]);
    assert!(!options.choices[0].needs_action);
}

#[test]
fn variant_in_use_needs_action_until_complete() {
    let mut builder = union_builder();
    builder.choose_input(Input::choice("Var")).unwrap();
    builder.choose_input(Input::choice(BACK_ID)).unwrap();
    let options = builder.get_options();
    assert_eq!(ids(&options), vec!["Var", "Empty"]);
    assert!(options.choices[0].needs_action);
    assert!(!options.choices[1].needs_action);
}

#[test]
fn new_builder_of_a_plain_type_holds_nothing() {
    for kind in [
        Plain::I8,
        Plain::I16,
        Plain::I32,
        Plain::I64,
        Plain::U8,
        Plain::U16,
        Plain::U32,
        Plain::U64,
        Plain::Isize,
        Plain::Usize,
        Plain::Str,
        Plain::Char,
        Plain::Path,
    ] {
        let builder = builder(no_types(), &Type::Plain(kind)).expect("a known type");
        assert!(!builder.is_done());
        assert_eq!(builder.finalize(), Err(FinalizeError::MissingField));
        assert_eq!(builder.to_node(), Node::Leaf(Field::Missing));
    }
    let builder = builder(no_types(), &Type::Bool).expect("a known type");
    assert!(!builder.is_done());
    assert_eq!(builder.to_node(), Node::Leaf(Field::Missing));
}

#[test]
fn new_builder_of_an_optional_value_holds_the_absent_value() {
    let builder =
        builder(no_types(), &Type::Optional(Box::new(Type::Plain(Plain::Str)))).expect("a known type");
    assert!(builder.is_done());
    assert_eq!(builder.finalize(), Ok(Value::Optional(None)));
    assert_eq!(builder.to_node(), Node::Leaf(Field::String("None".to_string())));
}

#[test]
fn text_that_denotes_a_value_sets_it() {
    let mut builder = builder(no_types(), &Type::Plain(Plain::I16)).expect("a known type");
    assert_eq!(builder.choose_input(Input::text("-300")), Ok(None));
    assert_eq!(builder.finalize(), Ok(Value::I16(-300)));
    assert_eq!(builder.to_node(), Node::Leaf(Field::String("-300".to_string())));
}

#[test]
fn text_that_denotes_no_value_changes_nothing() {
    let mut builder = builder(no_types(), &Type::Plain(Plain::I16)).expect("a known type");
    builder.choose_input(Input::text("12")).unwrap();
    assert_eq!(
        builder.choose_input(Input::text("40000")),
        Err(ChooseError::InvalidText { error: "number too large to fit in target type".to_string() })
    );
    assert_eq!(builder.finalize(), Ok(Value::I16(12)));
    assert_eq!(
        builder.choose_input(Input::text("twelve")),
        Err(ChooseError::InvalidText { error: "invalid digit found in string".to_string() })
    );
    assert_eq!(builder.finalize(), Ok(Value::I16(12)));
}

#[test]
fn choice_at_a_plain_builder_is_unexpected() {
    let mut builder = builder(no_types(), &Type::Plain(Plain::Str)).expect("a known type");
    assert_eq!(
        builder.choose_input(Input::choice("anything")),
        Err(ChooseError::UnexpectedChoice)
    );
    assert!(!builder.is_done());
}

#[test]
fn text_at_a_menu_is_unexpected() {
    let mut builder = record_builder();
    assert_eq!(builder.choose_input(Input::text("7")), Err(ChooseError::UnexpectedText));
    assert_eq!(ids(&builder.get_options()), vec!["a", "b"]);
}

#[test]
fn done_is_refused_while_a_field_is_missing() {
    let mut builder = record_builder();
    assert!(!ids(&builder.get_options()).contains(&FINALIZE_ID));
    assert_eq!(
        builder.choose_input(Input::choice(FINALIZE_ID)),
        Err(ChooseError::UnexpectedChoice)
    );
    // below the main menu "Done" is never offered
    builder.choose_input(Input::choice("b")).unwrap();
    assert!(!ids(&builder.get_options()).contains(&FINALIZE_ID));
    assert_eq!(
        builder.choose_input(Input::choice(FINALIZE_ID)),
        Err(ChooseError::UnexpectedChoice)
    );
    assert_eq!(ids(&builder.get_options()), vec![BACK_ID]);
}

#[test]
fn back_is_refused_in_the_main_menu() {
    let mut builder = record_builder();
    assert_eq!(builder.choose_input(Input::choice(BACK_ID)), Err(ChooseError::UnexpectedChoice));
}

#[test]
fn entering_again_shows_what_was_done() {
    let inner = StructGenerator::new(
        "Inner",
        vec![StructField::new("x", Type::Plain(Plain::U8))],
    );
    let outer = StructGenerator::new("Outer", vec![StructField::new("inner", Type::Named(0))]);
    let types =
        Types::new(vec![Generator::Struct(inner), Generator::Struct(outer)]).expect("valid types");
    let mut builder = builder(types, &Type::Named(1)).expect("a known type");

    builder.choose_input(Input::choice("inner")).unwrap();
    builder.choose_input(Input::choice("x")).unwrap();
    builder.choose_input(Input::text("9")).unwrap();
    let inside = builder.get_options();
    let shown = builder.to_node();
    builder.choose_input(Input::choice(BACK_ID)).unwrap();
    assert_eq!(ids(&builder.get_options()), vec!["inner", FINALIZE_ID]);
    builder.choose_input(Input::choice("inner")).unwrap();
    assert_eq!(builder.get_options(), inside);
    assert_eq!(builder.to_node(), shown);
    assert!(!inside.choices[0].needs_action);
}

#[test]
fn selecting_the_variant_in_use_keeps_its_fields() {
    let mut builder = union_builder();
    builder.choose_input(Input::choice("Var")).unwrap();
    builder.choose_input(Input::text("3")).unwrap();
    // the same variant again: the field is still there
    builder.choose_input(Input::choice("Var")).unwrap();
    builder.choose_input(Input::choice(BACK_ID)).unwrap();
    assert_eq!(
        builder.finalize(),
        Ok(Value::Wrapper("Var".to_string(), Box::new(Value::I32(3))))
    );
    // another variant, and back to the first: the field is gone
    builder.choose_input(Input::choice("Empty")).unwrap();
    builder.choose_input(Input::choice("Var")).unwrap();
    builder.choose_input(Input::choice(BACK_ID)).unwrap();
    assert_eq!(builder.finalize(), Err(FinalizeError::MissingField));
}

#[test]
fn new_names_the_item_that_was_appended() {
    let mut builder =
        builder(no_types(), &Type::List(Box::new(Type::Plain(Plain::U32)))).expect("a known type");
    builder.choose_input(Input::choice("__new")).unwrap();
    builder.choose_input(Input::text("1")).unwrap();
    builder.choose_input(Input::choice("__new")).unwrap();
    builder.choose_input(Input::text("2")).unwrap();
    assert_eq!(builder.finalize(), Ok(Value::List(vec![Value::U32(1), Value::U32(2)])));
    // an item is edited in place
    builder.choose_input(Input::choice("0")).unwrap();
    builder.choose_input(Input::text("10")).unwrap();
    assert_eq!(builder.finalize(), Ok(Value::List(vec![Value::U32(10), Value::U32(2)])));
    // and the others move up when one is removed
    builder.choose_input(Input::choice("__remove")).unwrap();
    builder.choose_input(Input::choice("0")).unwrap();
    assert_eq!(builder.finalize(), Ok(Value::List(vec![Value::U32(2)])));
    assert_eq!(
        builder.to_node(),
        Node::Composite(
            "".to_string(),
            vec![FieldKind::Unnamed(Node::Leaf(Field::String("2".to_string())))]
        )
    );
}

#[test]
fn removal_of_an_item_that_is_not_there_is_refused() {
    let mut builder =
        builder(no_types(), &Type::List(Box::new(Type::Plain(Plain::U32)))).expect("a known type");
    assert_eq!(builder.choose_input(Input::choice("__remove")), Err(ChooseError::UnexpectedChoice));
    assert_eq!(builder.choose_input(Input::choice("0")), Err(ChooseError::UnexpectedChoice));
    builder.choose_input(Input::choice("__new")).unwrap();
    builder.choose_input(Input::choice(BACK_ID)).unwrap();
    builder.choose_input(Input::choice("__remove")).unwrap();
    assert_eq!(builder.choose_input(Input::choice("1")), Err(ChooseError::UnexpectedChoice));
    assert_eq!(builder.choose_input(Input::choice("x")), Err(ChooseError::UnexpectedChoice));
    assert_eq!(builder.choose_input(Input::text("0")), Err(ChooseError::UnexpectedText));
    assert_eq!(ids(&builder.get_options()), vec!["0", BACK_ID]);
    let options = builder.get_options();
    assert!(!options.choices[0].needs_action);
    builder.choose_input(Input::choice(BACK_ID)).unwrap();
    let options = builder.get_options();
    assert_eq!(ids(&options), vec!["__new", "__remove", "0"]);
    assert!(options.choices[2].needs_action);
}

#[test]
fn optional_value_is_set_edited_and_removed() {
    let mut builder =
        builder(no_types(), &Type::Optional(Box::new(Type::Plain(Plain::Char)))).expect("a known type");
    let options = builder.get_options();
    assert_eq!(options.query, "Choose an option");
    assert_eq!(ids(&options), vec!["__set", FINALIZE_ID]);
    assert_eq!(texts(&options), vec!["Set value", "Done"]);
    assert_eq!(builder.choose_input(Input::choice("__edit")), Err(ChooseError::UnexpectedChoice));
    assert_eq!(builder.choose_input(Input::choice("__remove")), Err(ChooseError::UnexpectedChoice));
    assert_eq!(builder.choose_input(Input::text("x")), Err(ChooseError::UnexpectedText));

    assert_eq!(builder.choose_input(Input::choice("__set")), Ok(None));
    assert_eq!(builder.get_options().query, "Type a char");
    assert!(!builder.is_done());
    assert_eq!(builder.choose_input(Input::text("x")), Ok(None));
    assert_eq!(builder.finalize(), Ok(Value::Optional(Some(Box::new(Value::Char('x'))))));
    assert_eq!(builder.to_node(), Node::Leaf(Field::String("x".to_string())));

    let options = builder.get_options();
    assert_eq!(ids(&options), vec!["__remove", "__edit", FINALIZE_ID]);
    assert_eq!(texts(&options), vec!["Remove value", "Edit value", "Done"]);
    assert_eq!(builder.choose_input(Input::choice("__set")), Err(ChooseError::UnexpectedChoice));
    assert_eq!(builder.choose_input(Input::choice("__edit")), Ok(None));
    assert_eq!(builder.choose_input(Input::text("y")), Ok(None));
    assert_eq!(builder.finalize(), Ok(Value::Optional(Some(Box::new(Value::Char('y'))))));

    assert_eq!(builder.choose_input(Input::choice("__remove")), Ok(None));
    assert_eq!(builder.finalize(), Ok(Value::Optional(None)));
    assert_eq!(ids(&builder.get_options()), vec!["__set", FINALIZE_ID]);
}

#[test]
fn boolean_is_chosen() {
    let mut builder = builder(no_types(), &Type::Bool).expect("a known type");
    let options = builder.get_options();
    assert_eq!(options.query, "True or false?");
    assert!(!options.text_input);
    assert_eq!(ids(&options), vec!["true", "false"]);
    assert_eq!(texts(&options), vec!["true", "false"]);
    assert_eq!(builder.choose_input(Input::text("true")), Err(ChooseError::UnexpectedText));
    assert_eq!(builder.choose_input(Input::choice("yes")), Err(ChooseError::UnexpectedChoice));
    assert_eq!(builder.choose_input(Input::choice("true")), Ok(None));
    assert_eq!(builder.finalize(), Ok(Value::Bool(true)));
    assert_eq!(builder.to_node(), Node::Leaf(Field::String("true".to_string())));
    assert_eq!(builder.choose_input(Input::choice("false")), Ok(None));
    assert_eq!(builder.finalize(), Ok(Value::Bool(false)));
    assert_eq!(builder.to_node(), Node::Leaf(Field::String("false".to_string())));
}

#[test]
fn boxed_value_is_built_like_its_content() {
    let mut builder =
        builder(no_types(), &Type::Boxed(Box::new(Type::Plain(Plain::Path)))).expect("a known type");
    let options = builder.get_options();
    assert_eq!(options.query, "Type a path");
    assert!(options.text_input);
    assert_eq!(builder.choose_input(Input::text("/tmp/some file")), Ok(None));
    assert_eq!(
        builder.finalize(),
        Ok(Value::Boxed(Box::new(Value::Path("/tmp/some file".to_string()))))
    );
    assert_eq!(builder.to_node(), Node::Leaf(Field::String("/tmp/some file".to_string())));
}

#[test]
fn struct_with_one_unnamed_field() {
    let wrapper = StructGenerator::unnamed("Wrapper", Type::Plain(Plain::U64)).renamed("wrapped");
    let types = Types::new(vec![Generator::Struct(wrapper)]).expect("valid types");
    let mut builder = builder(types, &Type::Named(0)).expect("a known type");
    assert_eq!(builder.get_options().query, "Type an integer");
    assert_eq!(
        builder.to_node(),
        Node::Composite("wrapped".to_string(), vec![FieldKind::Unnamed(Node::Leaf(Field::Missing))])
    );
    assert_eq!(builder.choose_input(Input::text("18446744073709551615")), Ok(None));
    assert_eq!(
        builder.finalize(),
        Ok(Value::Wrapper("Wrapper".to_string(), Box::new(Value::U64(u64::MAX))))
    );
}

#[test]
fn type_that_contains_itself() {
    // struct Tree { label: String, children: Vec<Tree> }
    let tree = StructGenerator::new(
        "Tree",
        vec![
            StructField::new("label", Type::Plain(Plain::Str)),
            StructField::new("children", Type::List(Box::new(Type::Named(0)))),
        ],
    );
    let types = Types::new(vec![Generator::Struct(tree)]).expect("valid types");
    let mut builder = builder(types, &Type::Named(0)).expect("a known type");
    builder.choose_input(Input::choice("label")).unwrap();
    builder.choose_input(Input::text("root")).unwrap();
    builder.choose_input(Input::choice("children")).unwrap();
    builder.choose_input(Input::choice("__new")).unwrap();
    builder.choose_input(Input::choice("label")).unwrap();
    builder.choose_input(Input::text("leaf")).unwrap();
    assert_eq!(ids(&builder.get_options()), vec!["label", "children", BACK_ID]);
    assert_eq!(
        builder.finalize(),
        Ok(Value::Record(
            "Tree".to_string(),
            vec![
                ("label".to_string(), Value::Str("root".to_string())),
                (
                    "children".to_string(),
                    Value::List(vec![Value::Record(
                        "Tree".to_string(),
                        vec![
                            ("label".to_string(), Value::Str("leaf".to_string())),
                            ("children".to_string(), Value::List(vec![])),
                        ]
                    )])
                ),
            ]
        ))
    );
}

#[test]
fn errors_have_messages() {
    assert_eq!(
        ChooseError::InvalidText { error: "invalid digit found in string".to_string() }.message(),
        "Invalid input: invalid digit found in string"
    );
    assert_eq!(ChooseError::UnexpectedText.message(), "Unexpected text");
    assert_eq!(ChooseError::UnexpectedChoice.message(), "Unexpected choice");
    assert_eq!(FinalizeError::MissingField.message(), "There is at least a missing field");
}

#[test]
fn person_with_an_age_range() {
    let age = EnumGenerator::new(
        "AgeRange",
        vec![
            EnumVariant::new("Child", VariantKind::Empty).renamed("Less than 13 years old"),
            EnumVariant::new("Teen", VariantKind::Empty).renamed("From 13 to 19 years old"),
            EnumVariant::new("Adult", VariantKind::Empty).renamed("20 years or more"),
            EnumVariant::new("Unknown", VariantKind::Empty).renamed("I don't want to tell"),
        ],
    )
    .with_prompt("How old are you?");
    let person = StructGenerator::new(
        "Person",
        vec![
            StructField::new("full_name", Type::Plain(Plain::Str)).renamed("full name"),
            StructField::new("age", Type::Named(0)),
            StructField::new("num_hands", Type::Plain(Plain::U64))
                .with_default(Value::U64(2))
                .renamed("number of hands"),
        ],
    );
    let types = Types::new(vec![Generator::Enum(age), Generator::Struct(person)]).unwrap();
    let mut builder = builder(types, &Type::Named(1)).unwrap();

    let options = builder.get_options();
    assert_eq!(texts(&options), vec!["Edit full name", "Edit age", "Edit number of hands"]);
    builder.choose_input(Input::choice("age")).unwrap();

    let options = builder.get_options();
    assert_eq!(options.query, "How old are you?");
    assert_eq!(
        texts(&options),
        vec![
            "Less than 13 years old",
            "From 13 to 19 years old",
            "20 years or more",
            "I don't want to tell",
            "Go back"
        ]
    );
    builder.choose_input(Input::choice("Adult")).unwrap();

    builder.choose_input(Input::choice("full_name")).unwrap();
    let options = builder.get_options();
    assert!(options.text_input);
    builder.choose_input(Input::text("Ada Lovelace")).unwrap();

    assert!(builder.is_done());
    let value = builder.choose_input(Input::choice(FINALIZE_ID)).unwrap().unwrap();
    assert_eq!(
        value,
        Value::Record(
            "Person".to_string(),
            vec![
                ("full_name".to_string(), Value::Str("Ada Lovelace".to_string())),
                ("age".to_string(), Value::Unit("Adult".to_string())),
                ("num_hands".to_string(), Value::U64(2)),
            ]
        )
    );
    assert_eq!(
        builder.to_node(),
        Node::Composite(
            "Person".to_string(),
            vec![
                FieldKind::Named(
                    "full name".to_string(),
                    Node::Leaf(Field::String("Ada Lovelace".to_string()))
                ),
                FieldKind::Named(
                    "age".to_string(),
                    Node::Leaf(Field::String("20 years or more".to_string()))
                ),
                FieldKind::Named(
                    "number of hands".to_string(),
                    Node::Leaf(Field::String("2".to_string()))
                ),
            ]
        )
    );
}
