use ibuilder::builder;
use ibuilder::schema::{Generator, StructField, StructGenerator, Type, Types};
use ibuilder::value::{Plain, Value};
use ibuilder::{Builder, ChooseError, Input, Options, BACK_ID, FINALIZE_ID};

/// `struct Inner { string: String, defaulted: String = "lol" }` and
/// `struct Base { integer: i32, defaulted: i32 = 42, inner: Inner }`.
fn base_builder() -> Builder {
    let inner = StructGenerator::new(
        "Inner",
        vec![
            StructField::new("string", Type::Plain(Plain::Str)),
            StructField::new("defaulted", Type::Plain(Plain::Str))
                .with_default(Value::Str("lol".to_string())),
        ],
    );
    let base = StructGenerator::new(
        "Base",
        vec![
            StructField::new("integer", Type::Plain(Plain::I32)),
            StructField::new("defaulted", Type::Plain(Plain::I32)).with_default(Value::I32(42)),
            StructField::new("inner", Type::Named(0)),
        ],
    );
    let types =
        Types::new(vec![Generator::Struct(inner), Generator::Struct(base)]).expect("valid types");
    builder(types, &Type::Named(1)).expect("a known type")
}

#[test]
fn test_interaction() {
    let mut builder: Builder = base_builder();
    assert!(!builder.is_done());
    assert!(builder.finalize().is_err());

    let options = builder.get_options();
    assert!(!options.text_input);
    assert!(has_choice("integer", &options));
    assert!(has_choice("defaulted", &options));
    assert!(has_choice("inner", &options));
    assert!(!has_choice(BACK_ID, &options));
    assert!(!has_choice(FINALIZE_ID, &options));

    let res = builder.choose_input(Input::choice("nope"));
    assert_eq!(res, Err(ChooseError::UnexpectedChoice));
    let res = builder.choose_input(Input::choice(BACK_ID));
    assert_eq!(res, Err(ChooseError::UnexpectedChoice));
    let res = builder.choose_input(Input::choice("integer"));
    assert_eq!(res, Ok(None));

    let options = builder.get_options();
    assert!(options.text_input);
    assert!(has_choice(BACK_ID, &options));

    let res = builder.choose_input(Input::text("nope"));
    if let Err(ChooseError::InvalidText { .. }) = res {
    } else {
        panic!("expecting ChooseError::InvalidText");
    }
    let res = builder.choose_input(Input::text("123"));
    assert_eq!(res, Ok(None));

    let options = builder.get_options();
    assert!(!options.text_input);
    assert!(has_choice("integer", &options));
    assert!(has_choice("defaulted", &options));
    assert!(has_choice("inner", &options));
    assert!(!has_choice(BACK_ID, &options));
    assert!(!has_choice(FINALIZE_ID, &options));

    let res = builder.choose_input(Input::choice("inner"));
    assert_eq!(res, Ok(None));

    let options = builder.get_options();
    assert!(!options.text_input);
    assert!(has_choice("string", &options));
    assert!(has_choice("defaulted", &options));
    assert!(has_choice(BACK_ID, &options));
    assert!(!has_choice(FINALIZE_ID, &options));

    let res = builder.choose_input(Input::choice("string"));
    assert_eq!(res, Ok(None));

    let options = builder.get_options();
    assert!(options.text_input);
    assert!(has_choice(BACK_ID, &options));
    assert!(!has_choice(FINALIZE_ID, &options));

    let res = builder.choose_input(Input::text("lallabalalla"));
    assert_eq!(res, Ok(None));

    let options = builder.get_options();
    assert!(!options.text_input);
    assert!(has_choice("string", &options));
    assert!(has_choice("defaulted", &options));
    assert!(has_choice(BACK_ID, &options));
    assert!(!has_choice(FINALIZE_ID, &options));

    let res = builder.choose_input(Input::Choice(BACK_ID.into()));
    assert_eq!(res, Ok(None));

    let options = builder.get_options();
    assert!(!options.text_input);
    assert!(has_choice("integer", &options));
    assert!(has_choice("defaulted", &options));
    assert!(has_choice("inner", &options));
    assert!(!has_choice(BACK_ID, &options));
    assert!(has_choice(FINALIZE_ID, &options));

    let res = builder.choose_input(Input::Choice(FINALIZE_ID.into()));
    assert_eq!(
        res,
        Ok(Some(Value::Record(
            "Base".to_string(),
            vec![
                ("integer".to_string(), Value::I32(123)),
                ("defaulted".to_string(), Value::I32(42)),
                (
                    "inner".to_string(),
                    Value::Record(
                        "Inner".to_string(),
                        vec![
                            ("string".to_string(), Value::Str("lallabalalla".to_string())),
                            ("defaulted".to_string(), Value::Str("lol".to_string())),
                        ]
                    )
                ),
            ]
        )))
    );
}

fn has_choice<S: AsRef<str>>(id: S, options: &Options) -> bool {
    for opt in &options.choices {
        if opt.choice_id == id.as_ref() {
            return true;
        }
    }
    false
}
