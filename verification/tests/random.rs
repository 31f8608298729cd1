use ibuilder::builder;
use ibuilder::schema::{
    EnumGenerator, EnumVariant, Generator, StructField, StructGenerator, Type, Types, VariantKind,
};
use ibuilder::value::{Plain, Value};
use ibuilder::{Builder, Input};
use rand::seq::SliceRandom;

fn list(ty: Type) -> Type {
    Type::List(Box::new(ty))
}

fn boxed(ty: Type) -> Type {
    Type::Boxed(Box::new(ty))
}

fn optional(ty: Type) -> Type {
    Type::Optional(Box::new(ty))
}

/// Position 0: `struct Inner { string: Option<String>, defaulted: String = "lol" }`, shown as
/// "inner inner inner".
/// Position 1: `enum Enum` with the prompt "WHAAT??!" and the variants `Var1` (shown as
/// "hello"), `Var2 { field: String (hidden) = "nope", field2: Inner (shown as "baz") }`,
/// `Var3(Inner)` and `Var4(Vec<Vec<Option<Box<Vec<Box<Box<Base>>>>>>>)` (shown as "man! this
/// field is strange!").
/// Position 2: `struct Base { integer: i32, defaulted: i32 = 42, inner: Inner, en: Enum
/// (shown as "enum") }`.
fn base_builder() -> Builder {
    let inner = StructGenerator::new(
        "Inner",
        vec![
            StructField::new("string", optional(Type::Plain(Plain::Str))),
            StructField::new("defaulted", Type::Plain(Plain::Str))
                .with_default(Value::Str("lol".to_string())),
        ],
    )
    .renamed("inner inner inner");
    let strange = list(list(optional(boxed(list(boxed(boxed(Type::Named(2))))))));
    let en = EnumGenerator::new(
        "Enum",
        vec![
            EnumVariant::new("Var1", VariantKind::Empty).renamed("hello"),
            EnumVariant::new(
                "Var2",
                VariantKind::Named(vec![
                    StructField::new("field", Type::Plain(Plain::Str))
                        .with_default(Value::Str("nope".to_string()))
                        .hidden(),
                    StructField::new("field2", Type::Named(0)).renamed("baz"),
                ]),
            ),
            EnumVariant::new(
                "Var3",
                VariantKind::Unnamed(vec![StructField::new("0", Type::Named(0))]),
            ),
            EnumVariant::new("Var4", VariantKind::Unnamed(vec![StructField::new("0", strange)]))
                .renamed("man! this field is strange!"),
        ],
    )
    .with_prompt("WHAAT??!");
    let base = StructGenerator::new(
        "Base",
        vec![
            StructField::new("integer", Type::Plain(Plain::I32)),
            StructField::new("defaulted", Type::Plain(Plain::I32)).with_default(Value::I32(42)),
            StructField::new("inner", Type::Named(0)),
            StructField::new("en", Type::Named(1)).renamed("enum"),
        ],
    );
    let types = Types::new(vec![
        Generator::Struct(inner),
        Generator::Enum(en),
        Generator::Struct(base),
    ])
    .expect("valid types");
    builder(types, &Type::Named(2)).expect("a known type")
}

#[test]
fn random() {
    let mut builder = base_builder();
    const N_ITER: usize = 10_000;
    let mut rng = rand::thread_rng();

    for _ in 0..N_ITER {
        let options = builder.get_options();
        if options.text_input && rand::random() {
            let input = rand::random::<i32>().to_string();
            builder.choose_input(Input::text(&input)).unwrap_or_else(|e| {
                panic!(
                    "Failed to choose text '{}': {}\nBuilder: {:#?}",
                    input,
                    e.message(),
                    builder
                )
            });
        } else {
            if rand::random() {
                let _res = builder.choose_input(Input::choice("totally not a valid choice"));
            } else {
                let choice = options.choices.choose(&mut rng).expect("Empty choices");
                builder
                    .choose_input(Input::choice(&choice.choice_id))
                    .unwrap_or_else(|e| {
                        panic!(
                            "Failed to choose option {:?}: {}\nBuilder: {:#?}",
                            choice,
                            e.message(),
                            builder
                        )
                    });
            }
        }
    }
}
