//! Which descriptions of types are consistent.

use ibuilder::builder;
use ibuilder::schema::{
    is_reserved, EnumGenerator, EnumVariant, Generator, StructField, StructGenerator, Type, Types,
    VariantKind,
};
use ibuilder::value::{Plain, Value};
use ibuilder::{Input, BACK_ID, FINALIZE_ID};

fn integer() -> Type {
    Type::Plain(Plain::I32)
}

fn a_struct(fields: Vec<StructField>) -> Generator {
    Generator::Struct(StructGenerator::new("S", fields))
}

fn an_enum(variants: Vec<EnumVariant>) -> Generator {
    Generator::Enum(EnumGenerator::new("E", variants))
}

#[test]
fn no_generator_at_all_is_consistent() {
    let types = Types::new(vec![]).expect("valid types");
    assert_eq!(types.len(), 0);
    assert!(builder(types, &Type::Named(0)).is_none());
}

#[test]
fn type_must_be_among_the_generators() {
    assert!(Types::new(vec![a_struct(vec![StructField::new("a", Type::Named(1))])]).is_none());
    assert!(Types::new(vec![a_struct(vec![StructField::new(
        "a",
        Type::List(Box::new(Type::Optional(Box::new(Type::Named(7)))))
    )])])
    .is_none());
    let types = Types::new(vec![a_struct(vec![StructField::new("a", integer())])]).expect("valid types");
    assert!(builder(types, &Type::List(Box::new(Type::Named(1)))).is_none());
}

#[test]
fn struct_cannot_hold_itself_without_a_list_or_an_optional_value_between() {
    assert!(Types::new(vec![a_struct(vec![StructField::new("a", Type::Named(0))])]).is_none());
    assert!(Types::new(vec![a_struct(vec![StructField::new(
        "a",
        Type::Boxed(Box::new(Type::Named(0)))
    )])])
    .is_none());
    assert!(Types::new(vec![a_struct(vec![StructField::new(
        "a",
        Type::Optional(Box::new(Type::Named(0)))
    )])])
    .is_some());
    assert!(Types::new(vec![a_struct(vec![StructField::new(
        "a",
        Type::List(Box::new(Type::Named(0)))
    )])])
    .is_some());
}

#[test]
fn field_of_a_struct_is_built_before_the_struct() {
    let first = a_struct(vec![StructField::new("a", Type::Named(1))]);
    let second = a_struct(vec![StructField::new("b", integer())]);
    assert!(Types::new(vec![first, second]).is_none());
    let first = a_struct(vec![StructField::new("b", integer())]);
    let second = a_struct(vec![StructField::new("a", Type::Named(0))]);
    assert!(Types::new(vec![first, second]).is_some());
}

#[test]
fn variant_may_hold_its_enum_unless_it_is_the_default() {
    let holds_itself = |default: bool| {
        let variant = EnumVariant::new(
            "Again",
            VariantKind::Unnamed(vec![StructField::new("0", Type::Boxed(Box::new(Type::Named(0))))]),
        );
        let variant = if default { variant.as_default() } else { variant };
        Types::new(vec![an_enum(vec![variant, EnumVariant::new("End", VariantKind::Empty)])])
    };
    assert!(holds_itself(true).is_none());
    let types = holds_itself(false).expect("valid types");
    let mut builder = builder(types, &Type::Named(0)).expect("a known type");
    builder.choose_input(Input::choice("Again")).unwrap();
    builder.choose_input(Input::choice("Again")).unwrap();
    builder.choose_input(Input::choice("End")).unwrap();
    assert_eq!(
        builder.finalize(),
        Ok(Value::Wrapper(
            "Again".to_string(),
            Box::new(Value::Boxed(Box::new(Value::Wrapper(
                "Again".to_string(),
                Box::new(Value::Boxed(Box::new(Value::Unit("End".to_string()))))
            ))))
        ))
    );
}

#[test]
fn hidden_field_needs_a_default_value() {
    assert!(Types::new(vec![a_struct(vec![
        StructField::new("a", integer()).hidden(),
        StructField::new("b", integer()),
    ])])
    .is_none());
    assert!(Types::new(vec![a_struct(vec![
        StructField::new("a", integer()).hidden().with_default(Value::I32(1)),
        StructField::new("b", integer()),
    ])])
    .is_some());
    // the type of a hidden field is never built
    assert!(Types::new(vec![a_struct(vec![StructField::new("a", Type::Named(9))
        .hidden()
        .with_default(Value::Unit("anything".to_string()))])])
    .is_some());
}

#[test]
fn unnamed_field_stands_alone_and_is_shown() {
    let unnamed = |fields: Vec<StructField>| {
        let mut generator = StructGenerator::new("S", fields);
        generator.named_fields = false;
        Types::new(vec![Generator::Struct(generator)])
    };
    assert!(unnamed(vec![]).is_none());
    assert!(unnamed(vec![StructField::new("0", integer())]).is_some());
    assert!(unnamed(vec![StructField::new("0", integer()), StructField::new("1", integer())]).is_none());
    assert!(unnamed(vec![StructField::new("0", integer()).hidden().with_default(Value::I32(1))]).is_none());
    let variant =
        |fields: Vec<StructField>| Types::new(vec![an_enum(vec![EnumVariant::new("V", VariantKind::Unnamed(fields))])]);
    assert!(variant(vec![]).is_none());
    assert!(variant(vec![StructField::new("0", integer())]).is_some());
    assert!(variant(vec![StructField::new("0", integer()), StructField::new("1", integer())]).is_none());
}

#[test]
fn identifiers_of_the_builder_are_kept_for_it() {
    assert!(is_reserved(FINALIZE_ID));
    assert!(is_reserved(BACK_ID));
    assert!(!is_reserved("__new"));
    assert!(!is_reserved("finalize"));
    assert!(Types::new(vec![a_struct(vec![StructField::new(FINALIZE_ID, integer())])]).is_none());
    assert!(Types::new(vec![a_struct(vec![StructField::new(BACK_ID, integer())])]).is_none());
    assert!(Types::new(vec![an_enum(vec![EnumVariant::new(FINALIZE_ID, VariantKind::Empty)])]).is_none());
    assert!(Types::new(vec![an_enum(vec![EnumVariant::new(BACK_ID, VariantKind::Empty)])]).is_none());
    assert!(Types::new(vec![an_enum(vec![EnumVariant::new(
        "V",
        VariantKind::Named(vec![StructField::new(BACK_ID, integer())])
    )])])
    .is_none());
    // the identifier of an unnamed field is not used
    assert!(Types::new(vec![an_enum(vec![EnumVariant::new(
        "V",
        VariantKind::Unnamed(vec![StructField::new(BACK_ID, integer())])
    )])])
    .is_some());
    assert!(Types::new(vec![a_struct(vec![StructField::new("__new", integer())])]).is_some());
}

#[test]
fn identifiers_in_one_menu_differ() {
    assert!(Types::new(vec![a_struct(vec![
        StructField::new("a", integer()),
        StructField::new("a", integer()),
    ])])
    .is_none());
    assert!(Types::new(vec![a_struct(vec![
        StructField::new("a", integer()),
        StructField::new("b", integer()),
        StructField::new("a", integer()),
    ])])
    .is_none());
    // a hidden field is in no menu
    assert!(Types::new(vec![a_struct(vec![
        StructField::new("a", integer()),
        StructField::new("a", integer()).hidden().with_default(Value::I32(0)),
    ])])
    .is_some());
    assert!(Types::new(vec![an_enum(vec![
        EnumVariant::new("A", VariantKind::Empty),
        EnumVariant::new("B", VariantKind::Empty),
        EnumVariant::new("A", VariantKind::Empty),
    ])])
    .is_none());
    assert!(Types::new(vec![an_enum(vec![
        EnumVariant::new("A", VariantKind::Empty),
        EnumVariant::new("A", VariantKind::Empty).hidden(),
    ])])
    .is_some());
}

#[test]
fn hidden_variant_is_not_the_default_one() {
    assert!(Types::new(vec![an_enum(vec![
        EnumVariant::new("A", VariantKind::Empty).hidden().as_default(),
        EnumVariant::new("B", VariantKind::Empty),
    ])])
    .is_none());
}

#[test]
fn one_variant_at_most_is_the_default() {
    assert!(Types::new(vec![an_enum(vec![
        EnumVariant::new("A", VariantKind::Empty).as_default(),
        EnumVariant::new("B", VariantKind::Empty).as_default(),
        EnumVariant::new("C", VariantKind::Empty),
    ])])
    .is_none());
    let types = Types::new(vec![an_enum(vec![
        EnumVariant::new("A", VariantKind::Empty),
        EnumVariant::new("B", VariantKind::Empty).as_default(),
        EnumVariant::new("C", VariantKind::Empty),
    ])])
    .expect("valid types");
    let builder = builder(types, &Type::Named(0)).expect("a known type");
    assert_eq!(builder.finalize(), Ok(Value::Unit("B".to_string())));
}

#[test]
fn one_variant_at_least_is_shown() {
    assert!(Types::new(vec![an_enum(vec![])]).is_none());
    assert!(Types::new(vec![an_enum(vec![
        EnumVariant::new("A", VariantKind::Empty).hidden(),
        EnumVariant::new("B", VariantKind::Empty).hidden(),
    ])])
    .is_none());
    assert!(Types::new(vec![an_enum(vec![
        EnumVariant::new("A", VariantKind::Empty).hidden(),
        EnumVariant::new("B", VariantKind::Empty),
    ])])
    .is_some());
}

#[test]
fn variant_without_fields_has_no_prompt() {
    assert!(Types::new(vec![an_enum(vec![
        EnumVariant::new("A", VariantKind::Empty).with_prompt("A?")
    ])])
    .is_none());
}

#[test]
fn struct_has_a_field() {
    assert!(Types::new(vec![a_struct(vec![])]).is_none());
    assert!(Types::new(vec![an_enum(vec![EnumVariant::new("A", VariantKind::Named(vec![]))])]).is_none());
    assert!(Types::new(vec![a_struct(vec![StructField::new("a", integer())
        .hidden()
        .with_default(Value::I32(1))])])
    .is_some());
}

#[test]
fn default_variant_with_fields_is_built_with_the_enum() {
    let types = Types::new(vec![an_enum(vec![
        EnumVariant::new(
            "A",
            VariantKind::Named(vec![
                StructField::new("x", integer()).with_default(Value::I32(1)),
                StructField::new("y", Type::Bool).with_default(Value::Bool(true)),
            ]),
        )
        .as_default(),
        EnumVariant::new("B", VariantKind::Empty),
    ])])
    .expect("valid types");
    let builder = builder(types, &Type::Named(0)).expect("a known type");
    assert_eq!(
        builder.finalize(),
        Ok(Value::Record(
            "A".to_string(),
            vec![("x".to_string(), Value::I32(1)), ("y".to_string(), Value::Bool(true))]
        ))
    );
}

#[test]
fn default_value_of_a_shown_field_is_of_its_plain_type() {
    let with_default = |ty: Type, value: Value| {
        Types::new(vec![a_struct(vec![StructField::new("a", ty).with_default(value)])])
    };
    assert!(with_default(integer(), Value::I32(1)).is_some());
    assert!(with_default(integer(), Value::I64(1)).is_none());
    assert!(with_default(Type::Bool, Value::Bool(true)).is_some());
    assert!(with_default(Type::Bool, Value::I32(1)).is_none());
    assert!(with_default(Type::Plain(Plain::Path), Value::Path("p".to_string())).is_some());
    assert!(with_default(Type::Plain(Plain::Path), Value::Str("p".to_string())).is_none());
    assert!(with_default(Type::List(Box::new(integer())), Value::List(vec![])).is_none());
    assert!(with_default(Type::Boxed(Box::new(integer())), Value::I32(1)).is_none());
    assert!(integer().accepts(&Value::I32(0)));
    assert!(!integer().accepts(&Value::U32(0)));
    assert!(!Type::Named(0).accepts(&Value::Unit("A".to_string())));
}

#[test]
fn names_are_the_new_ones_where_there_are_new_ones() {
    let field = StructField::new("a", integer());
    assert_eq!(field.actual_name(), "a");
    assert_eq!(field.renamed("b").actual_name(), "b");
    let variant = EnumVariant::new("A", VariantKind::Empty);
    assert_eq!(variant.actual_name(), "A");
    assert!(variant.kind.is_empty());
    assert_eq!(variant.renamed("B").actual_name(), "B");
    let generator = StructGenerator::new("S", vec![]);
    assert!(generator.is_named());
    assert_eq!(generator.actual_name(), "S");
    assert_eq!(generator.renamed("T").actual_name(), "T");
    assert!(!StructGenerator::unnamed("S", integer()).is_named());
    assert_eq!(Type::List(Box::new(integer())).copy(), Type::List(Box::new(integer())));
    assert_eq!(Type::Named(3).clone(), Type::Named(3));
}
