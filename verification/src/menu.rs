//! What the builder shows to the user, what the user answers, and what can go wrong.

use crate::text::new_string;
use vstd::prelude::*;
use vstd::string::*;

verus! {

/// The options that the user has for the next choice in the builder.
#[derive(Debug, PartialEq, Eq)]
pub struct Options {
    /// A textual message with the query to show to the user.
    pub query: String,
    /// Whether the user can insert raw textual inputs (i.e. `Input::Text`).
    pub text_input: bool,
    /// The list of all the choices the user can use.
    pub choices: Vec<Choice>,
}

/// A single choice that the user can select.
#[derive(Debug, PartialEq, Eq)]
pub struct Choice {
    /// Identifier of the choice, may not be shown to the user. Its value has to be used as the
    /// value in `Input::Choice`.
    pub choice_id: String,
    /// Textual message to show to the user about this choice.
    pub text: String,
    /// This choice probably needs to be selected sooner or later because there is a field
    /// inside that is missing.
    pub needs_action: bool,
}

/// An input of the user to the builder.
#[derive(Debug, PartialEq, Eq)]
pub enum Input {
    /// The user inserted some raw textual content. Can be used only if the `text_input` field
    /// of the last `Options` was set to `true`.
    Text(String),
    /// The user selected one of the multiple choices in the `Options`. The value should be one
    /// of the `choice_id` inside the list of `Choice`s of the last `Options`.
    Choice(String),
}

/// The `Input` provided to the builder is invalid.
#[derive(Debug, PartialEq, Eq)]
pub enum ChooseError {
    /// The textual input is not valid.
    InvalidText { error: String },
    /// Provided `Input::Text` even though `Options::text_input` was set to `false`.
    UnexpectedText,
    /// Provided an `Input::Choice` with an invalid id.
    UnexpectedChoice,
}

/// The finalization of the result failed.
#[derive(Debug, PartialEq, Eq)]
pub enum FinalizeError {
    /// One or more fields were still missing.
    MissingField,
}

/// The mathematical content of a [`Choice`].
pub ghost struct ChoiceView {
    pub choice_id: Seq<char>,
    pub text: Seq<char>,
    pub needs_action: bool,
}

/// The mathematical content of an [`Options`].
pub ghost struct OptionsView {
    pub query: Seq<char>,
    pub text_input: bool,
    pub choices: Seq<ChoiceView>,
}

/// The mathematical content of an [`Input`].
pub ghost enum InputView {
    Text(Seq<char>),
    Choice(Seq<char>),
}

/// The mathematical content of a [`ChooseError`].
pub ghost enum ChooseErrorView {
    InvalidText { error: Seq<char> },
    UnexpectedText,
    UnexpectedChoice,
}

impl View for Choice {
    type V = ChoiceView;

    open spec fn view(&self) -> ChoiceView {
        ChoiceView { choice_id: self.choice_id@, text: self.text@, needs_action: self.needs_action }
    }
}

impl View for Options {
    type V = OptionsView;

    open spec fn view(&self) -> OptionsView {
        OptionsView {
            query: self.query@,
            text_input: self.text_input,
            choices: Seq::new(self.choices@.len(), |i: int| self.choices@[i]@),
        }
    }
}

impl View for Input {
    type V = InputView;

    open spec fn view(&self) -> InputView {
        match self {
            Input::Text(s) => InputView::Text(s@),
            Input::Choice(s) => InputView::Choice(s@),
        }
    }
}

impl View for ChooseError {
    type V = ChooseErrorView;

    open spec fn view(&self) -> ChooseErrorView {
        match self {
            ChooseError::InvalidText { error } => ChooseErrorView::InvalidText { error: error@ },
            ChooseError::UnexpectedText => ChooseErrorView::UnexpectedText,
            ChooseError::UnexpectedChoice => ChooseErrorView::UnexpectedChoice,
        }
    }
}

/// Whether one of the choices has this identifier.
pub open spec fn offered(choices: Seq<ChoiceView>, id: Seq<char>) -> bool {
    exists|i: int| 0 <= i < choices.len() && (#[trigger] choices[i]).choice_id == id
}

impl OptionsView {
    /// Whether one of the choices has this identifier.
    pub open spec fn offers(self, id: Seq<char>) -> bool {
        offered(self.choices, id)
    }

    /// The same options with one more choice at the end.
    pub open spec fn with(self, choice: ChoiceView) -> OptionsView {
        OptionsView { choices: self.choices.push(choice), ..self }
    }
}

impl ChooseErrorView {
    /// What is shown for the error.
    pub open spec fn message(self) -> Seq<char> {
        match self {
            ChooseErrorView::InvalidText { error } => "Invalid input: "@ + error,
            ChooseErrorView::UnexpectedText => "Unexpected text"@,
            ChooseErrorView::UnexpectedChoice => "Unexpected choice"@,
        }
    }
}

impl ChooseError {
    /// What is shown for the error.
    pub fn message(&self) -> (r: String)
        ensures
            r@ == self@.message(),
    {
        match self {
            ChooseError::InvalidText { error } => {
                let mut r = new_string("Invalid input: ");
                r.append(error.as_str());
                r
            },
            ChooseError::UnexpectedText => new_string("Unexpected text"),
            ChooseError::UnexpectedChoice => new_string("Unexpected choice"),
        }
    }
}

impl FinalizeError {
    /// What is shown for the error.
    pub fn message(&self) -> (r: String)
        ensures
            r@ == "There is at least a missing field"@,
    {
        new_string("There is at least a missing field")
    }
}

impl Input {
    /// The user inserted some raw textual content. Can be used only if the `text_input` field
    /// of the last `Options` was set to `true`.
    pub fn text(text: &str) -> (r: Input)
        ensures
            r@ == InputView::Text(text@),
    {
        Input::Text(new_string(text))
    }

    /// The user selected one of the multiple choices in the `Options`. The value should be one
    /// of the `choice_id` inside the list of `Choice`s of the last `Options`.
    pub fn choice(choice: &str) -> (r: Input)
        ensures
            r@ == InputView::Choice(choice@),
    {
        Input::Choice(new_string(choice))
    }
}

} // verus!
