use ibuilder::builder;
use ibuilder::schema::{Generator, StructField, StructGenerator, Type, Types};
use ibuilder::value::{Plain, Value};
use ibuilder::Builder;

/// `struct Foo { bar: i32 = 42 }` at position 0, `struct NestedFoo { foo: Foo }` at position 1.
fn types() -> Types {
    let foo = StructGenerator::new(
        "Foo",
        vec![StructField::new("bar", Type::Plain(Plain::I32)).with_default(Value::I32(42))],
    );
    let nested = StructGenerator::new("NestedFoo", vec![StructField::new("foo", Type::Named(0))]);
    Types::new(vec![Generator::Struct(foo), Generator::Struct(nested)]).expect("valid types")
}

fn foo_builder() -> Builder {
    builder(types(), &Type::Named(0)).expect("a known type")
}

fn nested_foo_builder() -> Builder {
    builder(types(), &Type::Named(1)).expect("a known type")
}

fn field<'a>(value: &'a Value, name: &str) -> &'a Value {
    match value {
        Value::Record(_, fields) => {
            for (ident, value) in fields {
                if ident == name {
                    return value;
                }
            }
            panic!("no field {}", name)
        }
        _ => panic!("expecting a record"),
    }
}

#[test]
fn default_test_default() {
    let builder = foo_builder();
    assert!(builder.is_done());
    let fooo = builder.finalize().unwrap();
    assert_eq!(field(&fooo, "bar"), &Value::I32(42));
}

#[test]
fn test_nested_default() {
    let builder = nested_foo_builder();
    assert!(builder.is_done());
    let fooo = builder.finalize().unwrap();
    assert_eq!(field(field(&fooo, "foo"), "bar"), &Value::I32(42));
    assert_eq!(
        fooo,
        Value::Record(
            "NestedFoo".to_string(),
            vec![(
                "foo".to_string(),
                Value::Record("Foo".to_string(), vec![("bar".to_string(), Value::I32(42))])
            )]
        )
    );
}
