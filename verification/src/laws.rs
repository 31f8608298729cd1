//! What holds of every builder.
//!
//! Each law is proved of the mathematical description of the builders, which the executable
//! builders are proved to follow.

use crate::menu::{ChooseErrorView, InputView};
use crate::model::{
    field_default, fields_rank, find_field, fresh, fresh_fields, fresh_struct, fresh_variant,
    lemma_fields_rank, lemma_fresh_fields, list_values, record_values,
    variants_of, BuilderView, NEW_ID, REMOVE_ID,
};
use crate::paths::{
    appends, distinct_ids, lemma_distinct_push, lemma_ids, lemma_index_text, lemma_offered_push,
    lemma_offered_accepted, lemma_options_distinct, lemma_reenter, lemma_reserved_not_offered,
    lemma_reserved_refused,
    lemma_subfields_not_reserved,
};
use crate::schema::{Generator, Shape, StructField, Type, Types};
use crate::text::nat_text;
use crate::value::{Plain, ValueView};
use crate::{BuilderState, BACK_ID, FINALIZE_ID};
use vstd::prelude::*;

verus! {

/// A text that denotes a value of the plain type that is built sets that value, which the
/// builder then holds. Any other text is refused as invalid, with the message that says why it
/// denotes no value.
pub proof fn law_plain_text(
    types: &Types,
    kind: Plain,
    value: Option<ValueView>,
    prompt: Seq<char>,
    text: Seq<char>,
)
    ensures
        ({
            let builder = BuilderView::Plain { kind, value, prompt };
            let applied = builder.apply(types, InputView::Text(text), Seq::empty());
            match kind.parse(text) {
                Ok(v) => applied is Ok && applied->Ok_0.value(types) == Some(v),
                Err(error) => applied == Err::<BuilderView, ChooseErrorView>(
                    ChooseErrorView::InvalidText { error },
                ),
            }
        }),
{
}

/// Appending an item to a list and then removing the item at the last index gives the list
/// as it was. In particular `__new` and then the removal of index 0 leave an empty list
/// empty.
pub proof fn law_list_new_then_remove(
    types: &Types,
    items: Seq<BuilderView>,
    element: Type,
    prompt: Seq<char>,
)
    requires
        items.len() <= usize::MAX,
    ensures
        ({
            let list = BuilderView::List { items, element, prompt };
            let grown = list.apply(types, InputView::Choice(NEW_ID@), Seq::empty());
            &&& grown is Ok
            &&& grown->Ok_0.apply(
                types,
                InputView::Choice(nat_text(items.len())),
                seq![REMOVE_ID@],
            ) == Ok::<BuilderView, ChooseErrorView>(list)
        }),
{
    lemma_index_text(items.len());
    let item = fresh(types, &element, None, None);
    assert(items.push(item).remove(items.len() as int) =~= items);
}

/// An input applied at a path that starts with `__new` changes the last item of a list, and
/// no other: the list stays as long as it is, and every item but the last stays as it is.
pub proof fn law_list_new_names_last(
    types: &Types,
    items: Seq<BuilderView>,
    element: Type,
    prompt: Seq<char>,
    input: InputView,
    rest: Seq<Seq<char>>,
)
    requires
        items.len() > 0,
    ensures
        ({
            let list = BuilderView::List { items, element, prompt };
            let path = seq![NEW_ID@] + rest;
            match list.apply(types, input, path) {
                Ok(BuilderView::List { items: after, element: e, prompt: p }) => {
                    &&& after.len() == items.len()
                    &&& e == element
                    &&& p == prompt
                    &&& forall|k: int| 0 <= k < items.len() - 1 ==> after[k] == items[k]
                    &&& items.last().apply(types, input, rest) == Ok::<
                        BuilderView,
                        ChooseErrorView,
                    >(after.last())
                },
                Ok(_) => false,
                Err(e) => items.last().apply(types, input, rest) == Err::<
                    BuilderView,
                    ChooseErrorView,
                >(e),
            }
        }),
{
    lemma_ids();
    let path = seq![NEW_ID@] + rest;
    assert(path[0] == NEW_ID@);
    assert(path.skip(1) =~= rest);
}

/// Where a segment leads to a builder that is already there, choosing it only moves there:
/// the builders stay as they are, whatever was done to them before, and "Go back" then leads
/// back. The one choice that leads to a builder and also changes something is `__new` at a
/// list, which appends an item.
pub proof fn law_enter_and_back(state: BuilderState, types: &Types, id: Seq<char>)
    requires
        state.wf(types),
        state.root.subfields(types, state.path).contains(id),
        state.root.valid_path(types, state.path.push(id)),
        !appends(state.root, types, state.path, id),
    ensures
        ({
            let entered = BuilderState { root: state.root, path: state.path.push(id) };
            &&& state.choose_input(types, InputView::Choice(id)) == Ok::<
                (BuilderState, Option<ValueView>),
                ChooseErrorView,
            >((entered, None))
            &&& entered.choose_input(types, InputView::Choice(BACK_ID@)) == Ok::<
                (BuilderState, Option<ValueView>),
                ChooseErrorView,
            >((state, None))
        }),
{
    lemma_subfields_not_reserved(state.root, types, state.path, id);
    lemma_reenter(state.root, types, state.path, id);
    assert(state.path.push(id).drop_last() =~= state.path);
}

/// "Go back" changes no builder: it only takes the last segment off the path.
pub proof fn law_back(state: BuilderState, types: &Types)
    requires
        state.wf(types),
        state.path.len() > 0,
    ensures
        state.choose_input(types, InputView::Choice(BACK_ID@)) == Ok::<
            (BuilderState, Option<ValueView>),
            ChooseErrorView,
        >((BuilderState { root: state.root, path: state.path.drop_last() }, None)),
{
}

/// In the main menu "Done" is offered exactly when all the fields have been set.
pub proof fn law_done_offered(state: BuilderState, types: &Types)
    requires
        state.wf(types),
        state.path.len() == 0,
    ensures
        state.options(types).offers(FINALIZE_ID@) == state.is_done(types),
{
    lemma_ids();
    lemma_reserved_not_offered(state.root, types, state.path, FINALIZE_ID@);
    lemma_offered_push(
        state.root.options(types, state.path).choices,
        crate::done_choice(),
        FINALIZE_ID@,
    );
}

/// In every menu but the main one "Done" is not offered, and "Go back" is.
pub proof fn law_back_offered(state: BuilderState, types: &Types)
    requires
        state.wf(types),
        state.path.len() > 0,
    ensures
        !state.options(types).offers(FINALIZE_ID@),
        state.options(types).offers(BACK_ID@),
{
    lemma_ids();
    lemma_reserved_not_offered(state.root, types, state.path, FINALIZE_ID@);
    lemma_offered_push(
        state.root.options(types, state.path).choices,
        crate::back_choice(),
        FINALIZE_ID@,
    );
    lemma_offered_push(
        state.root.options(types, state.path).choices,
        crate::back_choice(),
        BACK_ID@,
    );
}

/// Every choice that is offered is accepted when it is made: what is shown and what is taken
/// agree.
pub proof fn law_offered_accepted(state: BuilderState, types: &Types, id: Seq<char>)
    requires
        state.wf(types),
        state.root.countable(),
        state.options(types).offers(id),
    ensures
        state.choose_input(types, InputView::Choice(id)) is Ok,
{
    lemma_ids();
    let choices = state.root.options(types, state.path).choices;
    if state.path.len() > 0 {
        lemma_offered_push(choices, crate::back_choice(), id);
        if id != BACK_ID@ {
            lemma_offered_accepted(state.root, types, state.path, id);
        }
    } else {
        if state.is_done(types) {
            lemma_offered_push(choices, crate::done_choice(), id);
        }
        if !(id == FINALIZE_ID@ && state.is_done(types)) {
            lemma_offered_accepted(state.root, types, state.path, id);
        }
    }
}

/// No two of the choices that are offered have the same identifier.
pub proof fn law_choices_differ(state: BuilderState, types: &Types)
    requires
        state.wf(types),
    ensures
        distinct_ids(state.options(types).choices),
{
    lemma_ids();
    let choices = state.root.options(types, state.path).choices;
    lemma_options_distinct(state.root, types, state.path);
    lemma_reserved_not_offered(state.root, types, state.path, FINALIZE_ID@);
    lemma_reserved_not_offered(state.root, types, state.path, BACK_ID@);
    if state.path.len() > 0 {
        lemma_distinct_push(choices, crate::back_choice());
    } else if state.is_done(types) {
        lemma_distinct_push(choices, crate::done_choice());
    }
}

/// Where "Done" is not offered, choosing it is refused as an unexpected choice; where it is
/// offered, choosing it ends the building with the value that was built.
pub proof fn law_done_chosen(state: BuilderState, types: &Types)
    requires
        state.wf(types),
    ensures
        state.options(types).offers(FINALIZE_ID@) ==> state.choose_input(
            types,
            InputView::Choice(FINALIZE_ID@),
        ) == Ok::<(BuilderState, Option<ValueView>), ChooseErrorView>(
            (state, state.root.value(types)),
        ) && state.root.value(types) is Some,
        !state.options(types).offers(FINALIZE_ID@) ==> state.choose_input(
            types,
            InputView::Choice(FINALIZE_ID@),
        ) == Err::<(BuilderState, Option<ValueView>), ChooseErrorView>(
            ChooseErrorView::UnexpectedChoice,
        ),
{
    lemma_ids();
    if state.path.len() == 0 {
        law_done_offered(state, types);
    } else {
        law_back_offered(state, types);
    }
    lemma_reserved_refused(state.root, types, state.path, FINALIZE_ID@);
}

/// An input that is accepted leads to a state that a builder can be in: the path again leads
/// to a builder. Only "Done" gives a value: the one that the builder holds, which stays as it
/// is.
pub proof fn law_choose_keeps_state(state: BuilderState, types: &Types, input: InputView)
    requires
        state.wf(types),
    ensures
        state.choose_input(types, input) matches Ok((next, value)) ==> next.wf(types) && (
        value is Some ==> next == state && value == state.root.value(types)),
{
    state.lemma_choose_wf(types, input);
}

/// Whether a new builder of a type awaits input before it holds a value.
///
/// A plain type and a boolean await input unless they are given a default value of their
/// kind. A list and an optional value never do: the empty list and the absent value are
/// values. A boxed value does as its content does, an enum when it has no default variant
/// or when the fields of that variant do, and a struct when one of its shown fields does.
pub open spec fn awaits_input(types: &Types, ty: &Type, default: Option<ValueView>) -> bool
    decreases ty.rank(), 0nat, ty.height(),
    when types.wf() && ty.closed(types.generators().len() as int)
{
    match ty {
        Type::Plain(kind) => !(default matches Some(v) && v.plain() == Some(*kind)),
        Type::Bool => !(default matches Some(ValueView::Bool(_))),
        Type::List(_) => false,
        Type::Optional(_) => false,
        Type::Boxed(t) => awaits_input(types, &**t, None),
        Type::Named(i) => match types.generators()[*i as int] {
            Generator::Struct(g) => {
                proof {
                    types.lemma_fields_valid(Shape::Struct(*i));
                    lemma_fields_rank(
                        g.fields@,
                        g.fields@.len() as int,
                        types.generators().len() as int,
                        *i as int,
                        g.named_fields,
                    );
                }
                fields_await(types, Shape::Struct(*i), g.fields@.len() as int)
            },
            Generator::Enum(g) => {
                proof {
                    g.lemma_default_variant(g.variants@.len() as int);
                    assert(g.variants@.len() == g.variants.len());
                }
                match g.default_variant(g.variants@.len() as int) {
                    None => true,
                    Some(k) => g.variants@[k].kind !is Empty && {
                        proof {
                            types.lemma_fields_valid(Shape::Variant(*i, k as usize));
                            lemma_fields_rank(
                                g.variants@[k].kind.fields(),
                                g.variants@[k].kind.fields().len() as int,
                                types.generators().len() as int,
                                *i as int,
                                g.variants@[k].kind is Named,
                            );
                        }
                        fields_await(
                            types,
                            Shape::Variant(*i, k as usize),
                            g.variants@[k].kind.fields().len() as int,
                        )
                    },
                }
            },
        },
    }
}

/// Whether the new builder of one of the first `n` fields of a shape awaits input.
pub open spec fn fields_await(types: &Types, shape: Shape, n: int) -> bool
    decreases fields_rank(types.fields(shape), n), 1nat, n,
    when types.wf() && types.has(shape)
{
    let fields = types.fields(shape);
    if n <= 0 || n > fields.len() {
        false
    } else {
        fields_await(types, shape, n - 1) || (!fields[n - 1].metadata.hidden && {
            proof {
                types.lemma_fields_valid(shape);
                assert(fields[n - 1].valid(
                    types.generators().len() as int,
                    Types::position(shape),
                    types.eager(shape),
                    types.named(shape),
                ));
            }
            awaits_input(types, &fields[n - 1].ty, field_default(types, shape, n - 1))
        })
    }
}

/// The first `n` fields of a new builder of a shape do not all hold a value exactly when
/// one of them awaits input.
pub proof fn lemma_fresh_fields_value(types: &Types, shape: Shape, n: int)
    requires
        types.wf(),
        types.has(shape),
        0 <= n <= types.fields(shape).len(),
    ensures
        record_values(
            types,
            types.fields(shape),
            fresh_fields(types, shape, types.fields(shape).len() as int),
            n,
        ) is None == fields_await(types, shape, n),
        n > 0 && !types.fields(shape)[n - 1].metadata.hidden ==> (fresh_fields(
            types,
            shape,
            types.fields(shape).len() as int,
        )[n - 1]->Some_0.value(types) is None) == awaits_input(
            types,
            &types.fields(shape)[n - 1].ty,
            field_default(types, shape, n - 1),
        ),
    decreases fields_rank(types.fields(shape), n), 1nat, n,
{
    if n > 0 {
        let described = types.fields(shape);
        let all = described.len() as int;
        lemma_fresh_fields(types, shape, all);
        lemma_fresh_fields(types, shape, n);
        lemma_fresh_fields_value(types, shape, n - 1);
        types.lemma_fields_valid(shape);
        assert(described[n - 1].valid(
            types.generators().len() as int,
            Types::position(shape),
            types.eager(shape),
            types.named(shape),
        ));
        assert(fresh_fields(types, shape, all)[n - 1] == fresh_fields(types, shape, n)[n - 1]);
        if !described[n - 1].metadata.hidden {
            law_fresh_awaits(
                types,
                &described[n - 1].ty,
                field_default(types, shape, n - 1),
                crate::model::field_prompt(types, shape, n - 1),
            );
        }
    }
}

/// Immediately after construction a builder holds no value exactly when its type awaits
/// input. So a new builder of a plain type or of a boolean, made without a default value,
/// holds none, and neither does a new builder of an enum without a default variant; a new
/// builder of a list or of an optional value holds the empty list or the absent value.
pub proof fn law_fresh_awaits(
    types: &Types,
    ty: &Type,
    default: Option<ValueView>,
    prompt: Option<Seq<char>>,
)
    requires
        types.wf(),
        ty.closed(types.generators().len() as int),
    ensures
        fresh(types, ty, default, prompt).value(types) is None == awaits_input(types, ty, default),
    decreases ty.rank(), 0nat, ty.height(),
{
    match ty {
        Type::Boxed(t) => {
            law_fresh_awaits(types, &**t, None, prompt);
        },
        Type::List(t) => {
            assert(crate::model::list_values(types, Seq::empty(), 0) is Some);
        },
        Type::Named(i) => match types.generators()[*i as int] {
            Generator::Struct(g) => {
                let shape = Shape::Struct(*i);
                types.lemma_fields_valid(shape);
                lemma_fields_rank(
                    g.fields@,
                    g.fields@.len() as int,
                    types.generators().len() as int,
                    *i as int,
                    g.named_fields,
                );
                lemma_struct_awaits(types, shape, prompt);
                },
            Generator::Enum(g) => {
                g.lemma_default_variant(g.variants@.len() as int);
                assert(g.variants@.len() == g.variants.len());
                if let Some(k) = g.default_variant(g.variants@.len() as int) {
                    crate::model::lemma_fresh_variant_wf(types, *i, k);
                    assert(variants_of(types, *i) == g.variants@);
                    if g.variants@[k].kind !is Empty {
                        assert(fresh_variant(types, *i, k) == Some(
                            Box::new(
                                fresh_struct(
                                    types,
                                    Shape::Variant(*i, k as usize),
                                    crate::schema::opt_text(g.variants@[k].metadata.prompt),
                                ),
                            ),
                        ));
                        let shape = Shape::Variant(*i, k as usize);
                        types.lemma_fields_valid(shape);
                        lemma_fields_rank(
                            g.variants@[k].kind.fields(),
                            g.variants@[k].kind.fields().len() as int,
                            types.generators().len() as int,
                            *i as int,
                            g.variants@[k].kind is Named,
                        );
                        lemma_struct_awaits(
                            types,
                            shape,
                            crate::schema::opt_text(g.variants@[k].metadata.prompt),
                        );
                    }
                }
                },
        },
        _ => {},
    }
}

/// A new builder of a shape holds no value exactly when one of its fields awaits input.
pub proof fn lemma_struct_awaits(types: &Types, shape: Shape, prompt: Option<Seq<char>>)
    requires
        types.wf(),
        types.has(shape),
    ensures
        fresh_struct(types, shape, prompt).value(types) is None == fields_await(
            types,
            shape,
            types.fields(shape).len() as int,
        ),
    decreases fields_rank(types.fields(shape), types.fields(shape).len() as int), 2nat, 0nat,
{
    let all = types.fields(shape).len() as int;
    lemma_fresh_fields(types, shape, all);
    lemma_fresh_fields_value(types, shape, all);
    if !types.named(shape) {
        types.lemma_fields_valid(shape);
        assert(types.fields(shape)[0].valid(
            types.generators().len() as int,
            Types::position(shape),
            types.eager(shape),
            types.named(shape),
        ));
        lemma_fresh_fields_value(types, shape, 0);
        assert(fresh_fields(types, shape, all)[0] is Some);
    }
}

/// The value of a list is the list of the values of its items, in their order; it is there
/// exactly when every item holds a value.
pub proof fn law_list_value(types: &Types, items: Seq<BuilderView>, n: int)
    requires
        0 <= n <= items.len(),
    ensures
        match list_values(types, items, n) {
            Some(values) => values.len() == n && forall|i: int|
                0 <= i < n ==> (#[trigger] items[i]).value(types) == Some(values[i]),
            None => exists|i: int| 0 <= i < n && (#[trigger] items[i]).value(types) is None,
        },
    decreases n,
{
    if n > 0 {
        law_list_value(types, items, n - 1);
        match list_values(types, items, n - 1) {
            Some(values) => {
                if items[n - 1].value(types) is None {
                    assert(items[n - 1].value(types) is None);
                }
            },
            None => {
                let i = choose|i: int|
                    0 <= i < n - 1 && (#[trigger] items[i]).value(types) is None;
                assert(items[i].value(types) is None);
            },
        }
    }
}

/// The value of a struct holds its fields in the order of declaration, each under its
/// identifier: a shown field with the value that its builder holds, a hidden field with its
/// default value. It is there exactly when each shown field holds a value.
pub proof fn law_record_value(
    types: &Types,
    described: Seq<StructField>,
    fields: Seq<Option<BuilderView>>,
    n: int,
)
    requires
        0 <= n <= fields.len(),
        fields.len() == described.len(),
        forall|j: int|
            0 <= j < fields.len() && (#[trigger] fields[j]) is None
                ==> described[j].metadata.default is Some,
    ensures
        match record_values(types, described, fields, n) {
            Some(values) => values.len() == n && forall|j: int|
                0 <= j < n ==> (#[trigger] values[j]).0 == described[j].ident@ && match fields[j] {
                    Some(b) => b.value(types) == Some(values[j].1),
                    None => described[j].metadata.default->Some_0@ == values[j].1,
                },
            None => exists|j: int|
                0 <= j < n && (#[trigger] fields[j]) is Some && fields[j]->Some_0.value(types)
                    is None,
        },
    decreases n,
{
    if n > 0 {
        law_record_value(types, described, fields, n - 1);
        match record_values(types, described, fields, n - 1) {
            Some(values) => {
                if let Some(b) = fields[n - 1] {
                    if b.value(types) is None {
                        assert(fields[n - 1] is Some && fields[n - 1]->Some_0.value(types) is None);
                    }
                } else {
                    assert(fields[n - 1] is None);
                }
            },
            None => {
                let j = choose|j: int|
                    0 <= j < n - 1 && (#[trigger] fields[j]) is Some && fields[j]->Some_0.value(
                        types,
                    ) is None;
                assert(fields[j] is Some && fields[j]->Some_0.value(types) is None);
            },
        }
    }
}

/// An input applied at a path that starts with the identifier of a shown field changes the
/// builder of that field, and no other.
pub proof fn law_struct_field_applied(
    types: &Types,
    shape: Shape,
    fields: Seq<Option<BuilderView>>,
    prompt: Seq<char>,
    j: int,
    input: InputView,
    rest: Seq<Seq<char>>,
)
    requires
        types.named(shape),
        0 <= j < fields.len(),
        fields[j] is Some,
        find_field(types.fields(shape), types.fields(shape)[j].ident@, 0) == Some(j),
    ensures
        ({
            let builder = BuilderView::Struct { shape, fields, prompt };
            let path = seq![types.fields(shape)[j].ident@] + rest;
            match builder.apply(types, input, path) {
                Ok(BuilderView::Struct { shape: s, fields: after, prompt: p }) => {
                    &&& s == shape
                    &&& p == prompt
                    &&& after.len() == fields.len()
                    &&& forall|k: int| 0 <= k < fields.len() && k != j ==> after[k] == fields[k]
                    &&& after[j] is Some
                    &&& fields[j]->Some_0.apply(types, input, rest) == Ok::<
                        BuilderView,
                        ChooseErrorView,
                    >(after[j]->Some_0)
                },
                Ok(_) => false,
                Err(e) => fields[j]->Some_0.apply(types, input, rest) == Err::<
                    BuilderView,
                    ChooseErrorView,
                >(e),
            }
        }),
{
    let path = seq![types.fields(shape)[j].ident@] + rest;
    assert(path[0] == types.fields(shape)[j].ident@);
    assert(path.skip(1) =~= rest);
}

} // verus!
