use ibuilder::builder;
use ibuilder::schema::{EnumGenerator, EnumVariant, Generator, Type, Types, VariantKind};
use ibuilder::value::Value;
use ibuilder::Builder;

/// `enum NotDefaulted { Var1, Var2 }`
fn not_defaulted_builder() -> Builder {
    let generator = EnumGenerator::new(
        "NotDefaulted",
        vec![
            EnumVariant::new("Var1", VariantKind::Empty),
            EnumVariant::new("Var2", VariantKind::Empty),
        ],
    );
    let types = Types::new(vec![Generator::Enum(generator)]).expect("valid types");
    builder(types, &Type::Named(0)).expect("a known type")
}

/// `enum Defaulted { Var1 (the default), Var2 }`
fn defaulted_builder() -> Builder {
    let generator = EnumGenerator::new(
        "Defaulted",
        vec![
            EnumVariant::new("Var1", VariantKind::Empty).as_default(),
            EnumVariant::new("Var2", VariantKind::Empty),
        ],
    );
    let types = Types::new(vec![Generator::Enum(generator)]).expect("valid types");
    builder(types, &Type::Named(0)).expect("a known type")
}

#[test]
fn test_no_default() {
    let builder = not_defaulted_builder();
    assert!(!builder.is_done());
}

#[test]
fn default_variant_test_default() {
    let builder = defaulted_builder();
    assert!(builder.is_done());
    let res = builder.finalize().unwrap();
    assert_eq!(res, Value::Unit("Var1".to_string()));
}
