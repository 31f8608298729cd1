use ibuilder::builder;
use ibuilder::schema::{
    EnumGenerator, EnumVariant, Generator, StructField, StructGenerator, Type, Types, VariantKind,
};
use ibuilder::value::Plain;
use ibuilder::{Builder, Input, BACK_ID};

/// `enum DefaultPrompt { Var }`
fn default_prompt_builder() -> Builder {
    let generator =
        EnumGenerator::new("DefaultPrompt", vec![EnumVariant::new("Var", VariantKind::Empty)]);
    let types = Types::new(vec![Generator::Enum(generator)]).expect("valid types");
    builder(types, &Type::Named(0)).expect("a known type")
}

/// `struct Nested { field: i32 }` with the prompt "base prompt", and
/// `enum CustomPrompt { Var1, Var2(Nested), Var3 { field: Nested } }` with the prompt
/// "lol or lel?", where `Var2` has the prompt "override unnamed", `Var3` the prompt
/// "custom prompt" and its field the prompt "override field".
fn custom_prompt_builder() -> Builder {
    let nested =
        StructGenerator::new("Nested", vec![StructField::new("field", Type::Plain(Plain::I32))])
            .with_prompt("base prompt");
    let custom = EnumGenerator::new(
        "CustomPrompt",
        vec![
            EnumVariant::new("Var1", VariantKind::Empty),
            EnumVariant::new(
                "Var2",
                VariantKind::Unnamed(vec![StructField::new("0", Type::Named(0))]),
            )
            .with_prompt("override unnamed"),
            EnumVariant::new(
                "Var3",
                VariantKind::Named(vec![
                    StructField::new("field", Type::Named(0)).with_prompt("override field")
                ]),
            )
            .with_prompt("custom prompt"),
        ],
    )
    .with_prompt("lol or lel?");
    let types =
        Types::new(vec![Generator::Struct(nested), Generator::Enum(custom)]).expect("valid types");
    builder(types, &Type::Named(1)).expect("a known type")
}

#[test]
fn enum_prompt_default_prompt() {
    let mut builder = default_prompt_builder();

    let options = builder.get_options();
    assert!(!options.query.is_empty());

    builder.choose_input(Input::choice("Var")).unwrap();
    let options = builder.get_options();
    assert!(!options.query.is_empty());
}

#[test]
fn enum_prompt_custom_prompt() {
    let mut builder = custom_prompt_builder();

    let options = builder.get_options();
    assert_eq!(options.query, "lol or lel?");

    builder.choose_input(Input::choice("Var2")).unwrap();
    let options = builder.get_options();
    assert_eq!(options.query, "override unnamed");

    builder.choose_input(Input::choice(BACK_ID)).unwrap();
    builder.choose_input(Input::choice("Var3")).unwrap();
    let options = builder.get_options();
    assert_eq!(options.query, "custom prompt");

    builder.choose_input(Input::choice("field")).unwrap();
    let options = builder.get_options();
    assert_eq!(options.query, "override field");
}
