use ibuilder::builder;
use ibuilder::nodes::{FieldKind, Node};
use ibuilder::schema::{
    EnumGenerator, EnumVariant, Generator, StructField, StructGenerator, Type, Types, VariantKind,
};
use ibuilder::value::{Plain, Value};
use ibuilder::{Builder, ChooseError, Input};

/// What the hidden field of `StructWithoutDefault` holds.
fn defaultable() -> Value {
    Value::Record(
        "Defaultable".to_string(),
        vec![("field".to_string(), Value::Str("success".to_string()))],
    )
}

/// Position 0: `enum Enum { Var1 (hidden), Var2 { field: i32 }, Var3(i32) }`.
/// Position 1: `struct Struct { field: i32 (hidden) = 42, enm: Enum }`.
/// Position 2: `struct StructWithoutDefault { field: Defaultable (hidden), field2: i32 }`.
fn types() -> Types {
    let enm = EnumGenerator::new(
        "Enum",
        vec![
            EnumVariant::new("Var1", VariantKind::Empty).hidden(),
            EnumVariant::new(
                "Var2",
                VariantKind::Named(vec![StructField::new("field", Type::Plain(Plain::I32))]),
            ),
            EnumVariant::new(
                "Var3",
                VariantKind::Unnamed(vec![StructField::new("0", Type::Plain(Plain::I32))]),
            ),
        ],
    );
    let strct = StructGenerator::new(
        "Struct",
        vec![
            StructField::new("field", Type::Plain(Plain::I32))
                .with_default(Value::I32(42))
                .hidden(),
            StructField::new("enm", Type::Named(0)),
        ],
    );
    let without_default = StructGenerator::new(
        "StructWithoutDefault",
        vec![
            StructField::new("field", Type::Named(0)).with_default(defaultable()).hidden(),
            StructField::new("field2", Type::Plain(Plain::I32)),
        ],
    );
    Types::new(vec![
        Generator::Enum(enm),
        Generator::Struct(strct),
        Generator::Struct(without_default),
    ])
    .expect("valid types")
}

fn enum_builder() -> Builder {
    builder(types(), &Type::Named(0)).expect("a known type")
}

fn struct_builder() -> Builder {
    builder(types(), &Type::Named(1)).expect("a known type")
}

fn struct_without_default_builder() -> Builder {
    builder(types(), &Type::Named(2)).expect("a known type")
}

#[test]
fn hidden_variant() {
    let mut builder = enum_builder();

    let options = builder.get_options();
    let choices: Vec<_> = options.choices.iter().map(|c| c.text.as_str()).collect();
    assert!(!choices.contains(&"Var1"));

    assert_eq!(
        builder.choose_input(Input::choice("Var1")),
        Err(ChooseError::UnexpectedChoice)
    );
}

#[test]
fn hidden_field() {
    let mut builder = struct_builder();

    let options = builder.get_options();
    let choices: Vec<_> = options.choices.iter().map(|c| c.text.as_str()).collect();
    assert!(!choices.contains(&"field"));

    assert_eq!(
        builder.choose_input(Input::choice("field")),
        Err(ChooseError::UnexpectedChoice)
    );

    let node = builder.to_node();
    match node {
        Node::Leaf(_) => panic!("expecting a composite"),
        Node::Composite(_, fields) => {
            assert_eq!(fields.len(), 1);
            match &fields[0] {
                FieldKind::Named(name, _) => {
                    assert_ne!(name, "field");
                }
                FieldKind::Unnamed(_) => panic!("expecting named"),
            }
        }
    }
}

#[test]
fn hidden_field_without_default() {
    let mut builder = struct_without_default_builder();

    let options = builder.get_options();
    let choices: Vec<_> = options.choices.iter().map(|c| c.text.as_str()).collect();
    assert!(!choices.contains(&"field"));

    assert_eq!(
        builder.choose_input(Input::choice("field")),
        Err(ChooseError::UnexpectedChoice)
    );

    let node = builder.to_node();
    match node {
        Node::Leaf(_) => panic!("expecting a composite"),
        Node::Composite(_, fields) => {
            assert_eq!(fields.len(), 1);
            match &fields[0] {
                FieldKind::Named(name, _) => {
                    assert_ne!(name, "field");
                }
                FieldKind::Unnamed(_) => panic!("expecting named"),
            }
        }
    }

    builder.choose_input(Input::choice("field2")).unwrap();
    builder.choose_input(Input::text("42")).unwrap();

    let res = builder.finalize().unwrap();
    match res {
        Value::Record(_, fields) => {
            assert_eq!(fields[0].0, "field");
            match &fields[0].1 {
                Value::Record(_, inner) => {
                    assert_eq!(inner[0].1, Value::Str("success".to_string()))
                }
                _ => panic!("expecting a record"),
            }
            assert_eq!(fields[1], ("field2".to_string(), Value::I32(42)));
        }
        _ => panic!("expecting a record"),
    }
}
