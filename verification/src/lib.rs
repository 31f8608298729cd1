//! Interactive builders for structs.
//!
//! This crate provides a way to construct values interactively, starting from an "empty" state
//! and filling the values of the fields by prompting the user with multiple choices and text
//! inputs. After each choice the internal state of the builder changes.
//!
//! The builder provides the user with interactive menu-like interfaces, keeping the UI
//! abstract:
//! - Describe the struct (or the enum) to build, and those it depends upon, in a
//!   [`schema::Types`];
//! - Call [`builder`] to get a [`Builder`];
//! - By calling `get_options()` on the builder you'll get an object that contains a message to
//!   show the user, a list of possible _choices_ (i.e. buttons to press) and eventually the
//!   possibility to enter some text (i.e. a text box);
//! - By calling `to_node()` on the builder you'll get a tree-like structure with the state of
//!   the builder, highlighting the fields that still need actions;
//! - You choose how to show to the user the options and when the user made the decision you
//!   call `choose_input(input)` on the builder. This will apply the choice to the state of the
//!   structure if it's valid, or return an error;
//! - When the state is complete (all the required fields are present) a new option is present
//!   in the list: _Done_. If the user selects it `choose_input` will return the value.
//!
//! ## Supported features
//! - Structs with named fields, or with one unnamed field
//! - Enums, also with variants with fields (only one if unnamed)
//! - Default values for the fields and default variant for enums
//! - Custom message prompt for fields, structs, enums and variants
//! - Renaming fields, structs and variants for better looking options
//! - Hidden fields (that take the value only from the default)
//! - Nested structures, also ones that hold themselves within a list or an optional value
//! - Supported field types: the integer types, `bool`, `String`, `char`, paths, boxes, lists
//!   and optional values
//!
//! ## Example of usage
//!
//! The data is a person with three fields, one of which has a default value.
//!
//! ```
//! use ibuilder::builder;
//! use ibuilder::schema::{
//!     EnumGenerator, EnumVariant, Generator, StructField, StructGenerator, Type, Types,
//!     VariantKind,
//! };
//! use ibuilder::value::{Plain, Value};
//! use ibuilder::{Input, FINALIZE_ID};
//!
//! let age = EnumGenerator::new(
//!     "AgeRange",
//!     vec![
//!         EnumVariant::new("Child", VariantKind::Empty).renamed("Less than 13 years old"),
//!         EnumVariant::new("Teen", VariantKind::Empty).renamed("From 13 to 19 years old"),
//!         EnumVariant::new("Adult", VariantKind::Empty).renamed("20 years or more"),
//!         EnumVariant::new("Unknown", VariantKind::Empty).renamed("I don't want to tell"),
//!     ],
//! )
//! .with_prompt("How old are you?");
//! let person = StructGenerator::new(
//!     "Person",
//!     vec![
//!         StructField::new("full_name", Type::Plain(Plain::Str)).renamed("full name"),
//!         StructField::new("age", Type::Named(0)),
//!         StructField::new("num_hands", Type::Plain(Plain::U64))
//!             .with_default(Value::U64(2))
//!             .renamed("number of hands"),
//!     ],
//! );
//! let types = Types::new(vec![Generator::Enum(age), Generator::Struct(person)]).unwrap();
//! let mut builder = builder(types, &Type::Named(1)).unwrap();
//!
//! let options = builder.get_options(); // main menu: select the field to edit
//! builder.choose_input(Input::choice("age")).unwrap(); // select the field
//!
//! let options = builder.get_options(); // age menu
//! builder.choose_input(Input::choice("Adult")).unwrap(); // insert the value
//!
//! let options = builder.get_options(); // back to the main menu
//! builder.choose_input(Input::choice("full_name")).unwrap(); // select the field
//!
//! let options = builder.get_options(); // full_name menu
//! assert!(options.text_input); // for inserting the string value
//! builder.choose_input(Input::text("Ada Lovelace")).unwrap(); // insert the value
//!
//! assert!(builder.is_done());
//! let options = builder.get_options(); // main menu again, but the "Done" option is available
//! // chose the "Done" option, the return value is Ok(Some(value))
//! let value = builder.choose_input(Input::choice(FINALIZE_ID)).unwrap().unwrap();
//!
//! assert_eq!(
//!     value,
//!     Value::Record(
//!         "Person".to_string(),
//!         vec![
//!             ("full_name".to_string(), Value::Str("Ada Lovelace".to_string())),
//!             ("age".to_string(), Value::Unit("Adult".to_string())),
//!             ("num_hands".to_string(), Value::U64(2)),
//!         ]
//!     )
//! );
//! ```

use vstd::prelude::*;

pub mod builders;
pub mod laws;
pub mod menu;
pub mod model;
pub mod nodes;
pub mod paths;
pub mod schema;
pub mod text;
pub mod value;

pub use menu::{Choice, ChooseError, FinalizeError, Input, Options};

use builders::{new_buildable_value, opt_value, BuildableValue, BuildableValueConfig};
use menu::{ChoiceView, ChooseErrorView, InputView, OptionsView};
use model::BuilderView;
use nodes::Node;
use paths::{
    lemma_apply_keeps_valid, lemma_descend_valid, lemma_valid_accepts, lemma_valid_empty,
    lemma_valid_prefix,
};
use schema::{Type, Types};
use text::{copy_string, new_string, str_eq, texts};
use value::{Value, ValueView};

verus! {

/// The identifier of the "Done" choice.
pub const FINALIZE_ID: &'static str = "__finalize";

/// The identifier of the "Back" choice.
pub const BACK_ID: &'static str = "__back";

/// Interactive builder for creating a value by communicating.
///
/// ## Communication
/// After having instantiated a new `Builder` you can call the `get_options()` method for
/// fetching the list of possible actions that can be done to update the builder. Those options
/// are like menu entries used to move between menus and set the value of the fields.
///
/// The `Options` struct contains a list of possible `Choice`s (like buttons to press) and
/// eventually allow raw text input (like a textbox). For example while editing an integer
/// field the user can insert the new value of the number _as a text_ or can choose to go back
/// to the previous menu by pressing on "back".
///
/// The user's input is communicated to the `Builder` via the `choose_input` method. It takes an
/// `Input`, a container with the choice of the user, which can be either some `Text` (if the
/// `Options` allowed it), or a `Choice` (whose content is the identifier of the selected
/// option between the ones in the `Options`).
///
/// When the user has filled all the fields of the builder, he can select the "done" options,
/// which will make the `choose_input` method return `Ok(Some(value))`, signaling the end of the
/// communication.
#[derive(Debug)]
pub struct Builder {
    types: Types,
    builder: BuildableValue,
    current_fields: Vec<String>,
}

/// The state of a [`Builder`]: the state of the builder of the whole value, and the path to
/// the builder that the user is at.
pub ghost struct BuilderState {
    pub root: BuilderView,
    pub path: Seq<Seq<char>>,
}

/// The choice that ends the building.
pub open spec fn done_choice() -> ChoiceView {
    ChoiceView { choice_id: FINALIZE_ID@, text: "Done"@, needs_action: false }
}

/// The choice that leads back to the menu above.
pub open spec fn back_choice() -> ChoiceView {
    ChoiceView { choice_id: BACK_ID@, text: "Go back"@, needs_action: false }
}

impl BuilderState {
    /// Whether the state is one that a builder over these types can be in: the path leads to
    /// a builder.
    pub open spec fn wf(self, types: &Types) -> bool {
        &&& types.wf()
        &&& self.root.wf(types)
        &&& self.root.valid_path(types, self.path)
    }

    /// Whether all the fields have been set.
    pub open spec fn is_done(self, types: &Types) -> bool {
        self.root.value(types) is Some
    }

    /// The options that are offered: those of the builder that the path leads to, and one
    /// more. In the main menu that one is "Done", offered when all the fields have been set;
    /// in every other menu it is "Go back".
    pub open spec fn options(self, types: &Types) -> OptionsView {
        let options = self.root.options(types, self.path);
        if self.path.len() == 0 {
            if self.is_done(types) {
                options.with(done_choice())
            } else {
                options
            }
        } else {
            options.with(back_choice())
        }
    }

    /// The state that an input leads to, with the value that was built if the input ends the
    /// building, or the reason for which the input is refused.
    ///
    /// "Done" in the main menu of a complete builder ends the building. "Go back" in another
    /// menu leads to the menu above. Any other input is applied at the path: when it is the
    /// choice of a segment by which the path can be extended, the path is extended by it, else
    /// the path loses its last segment.
    pub open spec fn choose_input(self, types: &Types, input: InputView) -> Result<
        (BuilderState, Option<ValueView>),
        ChooseErrorView,
    > {
        if self.path.len() == 0 && input == InputView::Choice(FINALIZE_ID@) && self.is_done(types) {
            Ok((self, self.root.value(types)))
        } else if self.path.len() > 0 && input == InputView::Choice(BACK_ID@) {
            Ok((BuilderState { root: self.root, path: self.path.drop_last() }, None))
        } else {
            match self.root.apply(types, input, self.path) {
                Err(e) => Err(e),
                Ok(root) => Ok((BuilderState { root, path: self.next_path(types, input) }, None)),
            }
        }
    }

    /// The path after an input was applied.
    pub open spec fn next_path(self, types: &Types, input: InputView) -> Seq<Seq<char>> {
        match input {
            InputView::Choice(id) => if self.root.subfields(types, self.path).contains(id) {
                self.path.push(id)
            } else {
                self.shorter_path()
            },
            InputView::Text(_) => self.shorter_path(),
        }
    }

    /// The path without its last segment, if it has one.
    pub open spec fn shorter_path(self) -> Seq<Seq<char>> {
        if self.path.len() > 0 {
            self.path.drop_last()
        } else {
            self.path
        }
    }

    /// An input that is accepted leads to a state that a builder can be in.
    pub proof fn lemma_choose_wf(self, types: &Types, input: InputView)
        requires
            self.wf(types),
        ensures
            self.choose_input(types, input) matches Ok((next, value)) ==> next.wf(types),
    {
        if self.path.len() == 0 && input == InputView::Choice(FINALIZE_ID@) && self.is_done(types) {
        } else if self.path.len() > 0 && input == InputView::Choice(BACK_ID@) {
            lemma_valid_prefix(self.root, types, self.path);
        } else if let Ok(root) = self.root.apply(types, input, self.path) {
            model::lemma_apply_wf(self.root, types, input, self.path);
            lemma_apply_keeps_valid(self.root, types, input, self.path);
            if self.path.len() > 0 {
                lemma_valid_prefix(root, types, self.path);
            }
            if let InputView::Choice(id) = input {
                if self.root.subfields(types, self.path).contains(id) {
                    lemma_descend_valid(self.root, types, id, self.path);
                }
            }
        }
    }
}

impl View for Builder {
    type V = BuilderState;

    closed spec fn view(&self) -> BuilderState {
        BuilderState { root: self.builder@, path: texts(self.current_fields@) }
    }
}

/// Whether a segment is one of a list of segments.
fn contains_segment(segments: &Vec<String>, segment: &str) -> (r: bool)
    ensures
        r == texts(segments@).contains(segment@),
{
    let mut i: usize = 0;
    while i < segments.len()
        invariant
            i <= segments@.len(),
            forall|j: int| 0 <= j < i ==> texts(segments@)[j] != segment@,
        decreases segments@.len() - i,
    {
        if str_eq(segments[i].as_str(), segment) {
            assert(texts(segments@)[i as int] == segment@);
            return true;
        }
        i = i + 1;
    }
    false
}

impl Builder {
    /// The types over which the builder works.
    pub closed spec fn types(&self) -> &Types {
        &self.types
    }

    /// Whether the builder is in a state that it can be in. This holds of every builder that
    /// the functions of this crate return.
    pub open spec fn wf(&self) -> bool {
        self@.wf(self.types())
    }

    /// No list in the builder has more items than can be counted.
    pub proof fn lemma_countable(&self)
        ensures
            self@.root.countable(),
    {
        self.builder.lemma_countable();
    }

    /// Create a new builder from the builder of the whole value. It starts at the main menu.
    pub fn from_buildable_value(types: Types, inner: BuildableValue) -> (r: Builder)
        requires
            inner@.wf(&types),
        ensures
            r.wf(),
            r.types() == &types,
            r@ == (BuilderState { root: inner@, path: Seq::empty() }),
    {
        proof {
            use_type_invariant(&types);
            lemma_valid_empty(inner@, &types);
        }
        let r = Builder { types, builder: inner, current_fields: Vec::new() };
        assert(r@.path =~= Seq::empty());
        r
    }

    /// Return all the valid options that this builder accepts in the current state.
    pub fn get_options(&self) -> (r: Options)
        requires
            self.wf(),
        ensures
            r@ == self@.options(self.types()),
    {
        let mut options = self.builder.get_options(&self.types, self.current_fields.as_slice());
        let ghost before = options@;
        // main menu
        if self.current_fields.len() == 0 {
            if self.is_done() {
                options.choices.push(
                    Choice {
                        choice_id: new_string(FINALIZE_ID),
                        text: new_string("Done"),
                        needs_action: false,
                    },
                );
                assert(options@.choices =~= before.choices.push(done_choice()));
            }
            // field menu
        } else {
            options.choices.push(
                Choice {
                    choice_id: new_string(BACK_ID),
                    text: new_string("Go back"),
                    needs_action: false,
                },
            );
            assert(options@.choices =~= before.choices.push(back_choice()));
        }
        options
    }

    /// Apply an input to the builder, making it change state. Call again `get_options()` for
    /// the new options.
    ///
    /// Returns `Ok(None)` if the process is not done yet, `Ok(Some(value))` when the user
    /// choose to finish the builder.
    pub fn choose_input(&mut self, input: Input) -> (r: Result<Option<Value>, ChooseError>)
        requires
            old(self).wf(),
        ensures
            final(self).wf(),
            final(self).types() == old(self).types(),
            match old(self)@.choose_input(old(self).types(), input@) {
                Ok((next, value)) => r matches Ok(v) && opt_value(v) == value && final(self)@
                    == next,
                Err(e) => r matches Err(err) && err@ == e && final(self)@ == old(self)@,
            },
    {
        proof {
            self@.lemma_choose_wf(self.types(), input@);
            lemma_valid_accepts(self.builder@, &self.types, texts(self.current_fields@));
        }
        let ghost path = texts(self.current_fields@);
        let segment: Option<String> = match &input {
            Input::Choice(data) => {
                // main menu
                if self.current_fields.len() == 0 {
                    if str_eq(data.as_str(), FINALIZE_ID) {
                        match self.builder.get_value_any(&self.types) {
                            Some(value) => {
                                return Ok(Some(value));
                            },
                            None => {},
                        }
                    }
                    // field menu
                } else if str_eq(data.as_str(), BACK_ID) {
                    self.current_fields.pop();
                    assert(texts(self.current_fields@) =~= path.drop_last());
                    return Ok(None);
                }
                let subfields = self.builder.get_subfields(
                    &self.types,
                    self.current_fields.as_slice(),
                );
                if contains_segment(&subfields, data.as_str()) {
                    Some(copy_string(data))
                } else {
                    None
                }
            },
            Input::Text(_) => None,
        };
        match self.builder.apply(&self.types, input, self.current_fields.as_slice()) {
            Ok(()) => {
                match segment {
                    Some(segment) => {
                        self.current_fields.push(segment);
                        assert(texts(self.current_fields@) =~= path.push(segment@));
                    },
                    None => {
                        self.current_fields.pop();
                        assert(path.len() > 0 ==> texts(self.current_fields@) =~= path.drop_last());
                        assert(path.len() == 0 ==> texts(self.current_fields@) =~= path);
                    },
                }
                Ok(None)
            },
            Err(e) => Err(e),
        }
    }

    /// If the process is done try to finalize the process, even if the user hasn't completed
    /// the selection yet.
    pub fn finalize(&self) -> (r: Result<Value, FinalizeError>)
        requires
            self.wf(),
        ensures
            match self@.root.value(self.types()) {
                Some(value) => r matches Ok(v) && v@ == value,
                None => r matches Err(FinalizeError::MissingField),
            },
    {
        match self.builder.get_value_any(&self.types) {
            Some(value) => Ok(value),
            None => Err(FinalizeError::MissingField),
        }
    }

    /// Check if all the fields have been set and the call to `finalize()` will be successful.
    pub fn is_done(&self) -> (r: bool)
        requires
            self.wf(),
        ensures
            r == self@.is_done(self.types()),
    {
        self.builder.get_value_any(&self.types).is_some()
    }

    /// Return the tree structure of the `Builder` internal state.
    pub fn to_node(&self) -> (r: Node)
        requires
            self.wf(),
        ensures
            r@ == self@.root.node(self.types()),
    {
        self.builder.to_node(&self.types)
    }
}

/// Create a new `Builder` for a type. Nothing is built if the type mentions a struct or an
/// enum that the types do not hold.
pub fn builder(types: Types, ty: &Type) -> (r: Option<Builder>)
    ensures
        r is Some == ty.closed(types.generators().len() as int),
        r matches Some(b) ==> b.wf() && b.types() == &types && b@ == (BuilderState {
            root: model::fresh(&types, ty, None, None),
            path: Seq::empty(),
        }),
{
    proof {
        use_type_invariant(&types);
    }
    if !ty.is_closed(types.len()) {
        return None;
    }
    let inner = new_buildable_value(
        &types,
        ty,
        BuildableValueConfig { default: None, prompt: None },
    );
    Some(Builder::from_buildable_value(types, inner))
}

} // verus!
