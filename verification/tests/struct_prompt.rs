use ibuilder::builder;
use ibuilder::schema::{
    EnumGenerator, EnumVariant, Generator, StructField, StructGenerator, Type, Types, VariantKind,
};
use ibuilder::value::Plain;
use ibuilder::{Builder, Input, BACK_ID};

/// Position 0: `struct DefaultPrompt { field: i32 }`.
/// Position 1: `struct UnnamedStruct(String)` with the prompt "lol or lel?".
/// Position 2: `struct Nested { field: i32 }` with the prompt "base prompt".
/// Position 3: `enum Enum { Var }` with the prompt "base prompt".
/// Position 4: `struct CustomPrompt { field: i32, var: Enum, nest: Nested }` with the prompt
/// "lol or lel?", its fields with the prompts "plain field prompt", "override enum" and
/// "override struct".
fn types() -> Types {
    let default_prompt = StructGenerator::new(
        "DefaultPrompt",
        vec![StructField::new("field", Type::Plain(Plain::I32))],
    );
    let unnamed =
        StructGenerator::unnamed("UnnamedStruct", Type::Plain(Plain::Str)).with_prompt("lol or lel?");
    let nested =
        StructGenerator::new("Nested", vec![StructField::new("field", Type::Plain(Plain::I32))])
            .with_prompt("base prompt");
    let enm = EnumGenerator::new("Enum", vec![EnumVariant::new("Var", VariantKind::Empty)])
        .with_prompt("base prompt");
    let custom = StructGenerator::new(
        "CustomPrompt",
        vec![
            StructField::new("field", Type::Plain(Plain::I32)).with_prompt("plain field prompt"),
            StructField::new("var", Type::Named(3)).with_prompt("override enum"),
            StructField::new("nest", Type::Named(2)).with_prompt("override struct"),
        ],
    )
    .with_prompt("lol or lel?");
    Types::new(vec![
        Generator::Struct(default_prompt),
        Generator::Struct(unnamed),
        Generator::Struct(nested),
        Generator::Enum(enm),
        Generator::Struct(custom),
    ])
    .expect("valid types")
}

fn builder_of(position: usize) -> Builder {
    builder(types(), &Type::Named(position)).expect("a known type")
}

#[test]
fn struct_prompt_default_prompt() {
    let mut builder = builder_of(0);

    let options = builder.get_options();
    assert!(!options.query.is_empty());

    builder.choose_input(Input::choice("field")).unwrap();
    let options = builder.get_options();
    assert!(!options.query.is_empty());
}

#[test]
fn unnamed_prompt() {
    let builder = builder_of(1);

    let options = builder.get_options();
    assert_eq!(options.query, "lol or lel?");
}

#[test]
fn struct_prompt_custom_prompt() {
    let mut builder = builder_of(4);

    let options = builder.get_options();
    assert_eq!(options.query, "lol or lel?");

    builder.choose_input(Input::choice("field")).unwrap();
    let options = builder.get_options();
    assert_eq!(options.query, "plain field prompt");

    builder.choose_input(Input::choice(BACK_ID)).unwrap();
    builder.choose_input(Input::choice("var")).unwrap();
    let options = builder.get_options();
    assert_eq!(options.query, "override enum");

    builder.choose_input(Input::choice(BACK_ID)).unwrap();
    builder.choose_input(Input::choice("nest")).unwrap();
    let options = builder.get_options();
    assert_eq!(options.query, "override struct");
}
