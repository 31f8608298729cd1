//! Test builders of types that refer to one another.

use ibuilder::builder;
use ibuilder::schema::{Generator, StructField, StructGenerator, Type, Types};
use ibuilder::value::Plain;

/// `struct Foo { bar: Bar }`, which comes first, and `struct Bar { field: i64 }`.
#[test]
fn test_mods() {
    let bar = StructGenerator::new("Bar", vec![StructField::new("field", Type::Plain(Plain::I64))]);
    let foo = StructGenerator::new("Foo", vec![StructField::new("bar", Type::Named(0))]);
    let types = Types::new(vec![Generator::Struct(bar), Generator::Struct(foo)]).expect("valid types");
    let _builder = builder(types, &Type::Named(1)).expect("a known type");
}
