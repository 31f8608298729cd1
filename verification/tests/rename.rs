use ibuilder::builder;
use ibuilder::nodes::{Field, FieldKind, Node};
use ibuilder::schema::{
    EnumGenerator, EnumVariant, Generator, StructField, StructGenerator, Type, Types, VariantKind,
};
use ibuilder::value::Plain;
use ibuilder::{Builder, Input};

/// Position 0: `enum Enum { Var1, Var2 { field: i32 }, Var3(i32) }`, shown as "renamed
/// variant", "renamed variant 2" (its field as "renamed inner field") and "renamed variant 3".
/// Position 1: `struct Struct { field: i32, enm: Enum }`, shown as "Renamed struct", its
/// fields as "renamed field" and "enum".
fn types() -> Types {
    let enm = EnumGenerator::new(
        "Enum",
        vec![
            EnumVariant::new("Var1", VariantKind::Empty).renamed("renamed variant"),
            EnumVariant::new(
                "Var2",
                VariantKind::Named(vec![
                    StructField::new("field", Type::Plain(Plain::I32)).renamed("renamed inner field")
                ]),
            )
            .renamed("renamed variant 2"),
            EnumVariant::new(
                "Var3",
                VariantKind::Unnamed(vec![StructField::new("0", Type::Plain(Plain::I32))]),
            )
            .renamed("renamed variant 3"),
        ],
    );
    let strct = StructGenerator::new(
        "Struct",
        vec![
            StructField::new("field", Type::Plain(Plain::I32)).renamed("renamed field"),
            StructField::new("enm", Type::Named(0)).renamed("enum"),
        ],
    )
    .renamed("Renamed struct");
    Types::new(vec![Generator::Enum(enm), Generator::Struct(strct)]).expect("valid types")
}

fn enum_builder() -> Builder {
    builder(types(), &Type::Named(0)).expect("a known type")
}

fn struct_builder() -> Builder {
    builder(types(), &Type::Named(1)).expect("a known type")
}

#[test]
fn test_struct() {
    let builder = struct_builder();

    let options = builder.get_options();
    let choices: Vec<_> = options.choices.iter().map(|c| c.text.as_str()).collect();
    assert!(choices.contains(&"Edit renamed field"));
    assert!(choices.contains(&"Edit enum"));

    let nodes = builder.to_node();
    match nodes {
        Node::Leaf(_) => panic!("Expecting a composite"),
        Node::Composite(name, fields) => {
            assert_eq!(name, "Renamed struct");
            match &fields[0] {
                FieldKind::Named(name, _) => {
                    assert_eq!(name, "renamed field");
                }
                FieldKind::Unnamed(_) => panic!("Expecting a named field"),
            }
            match &fields[1] {
                FieldKind::Named(name, _) => {
                    assert_eq!(name, "enum");
                }
                FieldKind::Unnamed(_) => panic!("Expecting a named field"),
            }
        }
    }
}

#[test]
fn test_enum_options() {
    let builder = enum_builder();
    let options = builder.get_options();
    let choices: Vec<_> = options.choices.iter().map(|c| c.text.as_str()).collect();
    assert!(choices.contains(&"renamed variant"));
    assert!(choices.contains(&"renamed variant 2"));
    assert!(choices.contains(&"renamed variant 3"));
}

#[test]
fn test_enum_empty() {
    let mut builder = enum_builder();

    builder.choose_input(Input::choice("Var1")).unwrap();

    let nodes = builder.to_node();
    match nodes {
        Node::Leaf(field) => match field {
            Field::String(name) => assert_eq!(name, "renamed variant"),
            Field::Missing => panic!("Expecting a string"),
        },
        Node::Composite(_, _) => panic!("Expecting a leaf"),
    }
}

#[test]
fn test_enum_named() {
    let mut builder = enum_builder();

    builder.choose_input(Input::choice("Var2")).unwrap();

    let options = builder.get_options();
    let choices: Vec<_> = options.choices.iter().map(|c| c.text.as_str()).collect();
    assert!(choices.contains(&"Edit renamed inner field"));

    let nodes = builder.to_node();
    match nodes {
        Node::Leaf(_) => panic!("Expecting a composite"),
        Node::Composite(name, fields) => {
            assert_eq!(name, "renamed variant 2");
            match &fields[0] {
                FieldKind::Named(name, _) => {
                    assert_eq!(name, "renamed inner field");
                }
                FieldKind::Unnamed(_) => panic!("Expecting a named"),
            }
        }
    }
}

#[test]
fn test_enum_unnamed() {
    let mut builder = enum_builder();

    builder.choose_input(Input::choice("Var3")).unwrap();

    let nodes = builder.to_node();
    match nodes {
        Node::Leaf(_) => panic!("expecting a composite"),
        Node::Composite(name, _) => {
            assert_eq!(name, "renamed variant 3");
        }
    }
}
