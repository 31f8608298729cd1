//! What a builder is and does, stated mathematically.
//!
//! [`BuilderView`] is the state of a builder as a plain tree. The functions on it say, for
//! every state, which value it holds, how it is displayed, what it offers at a path, and which
//! state an input leads to. The executable builders are proved to do as these say.

use crate::menu::{ChoiceView, ChooseErrorView, InputView, OptionsView};
use crate::nodes::{FieldKindView, FieldView, NodeView};
use crate::schema::{opt_text, Generator, Shape, StructField, Type, Types};
use crate::text::{nat_text, parse_index};
use crate::value::{Plain, ValueView};
use vstd::prelude::*;

verus! {

/// The choice of a list that appends an item, and the segment that names the last item.
pub const NEW_ID: &'static str = "__new";

/// The choice of a list that leads to the removal of an item, and the one of an optional
/// value that removes it.
pub const REMOVE_ID: &'static str = "__remove";

/// The choice of an optional value that leads into the value that is there.
pub const EDIT_ID: &'static str = "__edit";

/// The choice of an optional value that puts a value there.
pub const SET_ID: &'static str = "__set";

/// The state of a builder.
#[allow(inconsistent_fields)]
pub ghost enum BuilderView {
    /// The builder of a value of a plain type.
    Plain { kind: Plain, value: Option<ValueView>, prompt: Seq<char> },
    /// The builder of a boolean.
    Bool { value: Option<bool>, prompt: Seq<char> },
    /// The builder of a list: the builders of its items, and the type of an item.
    List { items: Seq<BuilderView>, element: Type, prompt: Seq<char> },
    /// The builder of an optional value: the builder of the value, if one is there, and its
    /// type.
    Optional { value: Option<Box<BuilderView>>, element: Type, prompt: Seq<char> },
    /// The builder of a boxed value.
    Boxed { value: Box<BuilderView> },
    /// The builder of what has fields: for each field, in order, its builder, or nothing for
    /// a hidden field.
    Struct { shape: Shape, fields: Seq<Option<BuilderView>>, prompt: Seq<char> },
    /// The builder of an enum: the position of its generator, and the variant in use, if any,
    /// with the builder of its fields, if it has fields.
    Enum { generator: usize, value: Option<(usize, Option<Box<BuilderView>>)>, prompt: Seq<char> },
}

/// The prompt to show: the one that was asked for, else the usual one.
pub open spec fn or_text(prompt: Option<Seq<char>>, usual: Seq<char>) -> Seq<char> {
    match prompt {
        Some(p) => p,
        None => usual,
    }
}

/// The first prompt that was asked for, if any.
pub open spec fn or_else(first: Option<Seq<char>>, second: Option<Seq<char>>) -> Option<
    Seq<char>,
> {
    match first {
        Some(p) => Some(p),
        None => second,
    }
}

/// The position of the first shown field, from `start` on, that is called `ident`.
pub open spec fn find_field(fields: Seq<StructField>, ident: Seq<char>, start: int) -> Option<int>
    decreases fields.len() - start,
{
    if start < 0 || start >= fields.len() {
        None
    } else if !fields[start].metadata.hidden && fields[start].ident@ == ident {
        Some(start)
    } else {
        find_field(fields, ident, start + 1)
    }
}

/// The position of the first variant that is not hidden, from `start` on, that is called
/// `ident`.
pub open spec fn find_variant(types: &Types, generator: usize, ident: Seq<char>, start: int)
    -> Option<int>
    decreases variants_of(types, generator).len() - start,
{
    let variants = variants_of(types, generator);
    if start < 0 || start >= variants.len() {
        None
    } else if !variants[start].metadata.hidden && variants[start].ident@ == ident {
        Some(start)
    } else {
        find_variant(types, generator, ident, start + 1)
    }
}

/// The variants of the enum at a position.
pub open spec fn variants_of(types: &Types, generator: usize) -> Seq<crate::schema::EnumVariant> {
    types.variants(generator)
}

/// The item of a list that a segment names: the last one for `__new`, else the one at the
/// index that the segment denotes.
pub open spec fn find_item(len: nat, segment: Seq<char>) -> Option<int> {
    if segment == NEW_ID@ {
        if len > 0 {
            Some(len - 1)
        } else {
            None
        }
    } else {
        match parse_index(segment) {
            Some(i) => if 0 <= i < len {
                Some(i)
            } else {
                None
            },
            None => None,
        }
    }
}

/// The shown field that a segment names, with its position.
pub open spec fn shown_field(
    described: Seq<StructField>,
    fields: Seq<Option<BuilderView>>,
    segment: Seq<char>,
) -> Option<(int, BuilderView)> {
    match find_field(described, segment, 0) {
        Some(j) => if 0 <= j < fields.len() {
            match fields[j] {
                Some(b) => Some((j, b)),
                None => None,
            }
        } else {
            None
        },
        None => None,
    }
}

/// The builder of the one field of a shape whose field is unnamed.
pub open spec fn sole_field(fields: Seq<Option<BuilderView>>) -> Option<BuilderView> {
    if fields.len() > 0 {
        fields[0]
    } else {
        None
    }
}

/// The values of the first `n` items of a list, if each of them holds one.
pub open spec fn list_values(types: &Types, items: Seq<BuilderView>, n: int) -> Option<
    Seq<ValueView>,
>
    decreases items, n,
{
    if n <= 0 || n > items.len() {
        Some(Seq::empty())
    } else {
        match (list_values(types, items, n - 1), items[n - 1].value(types)) {
            (Some(values), Some(v)) => Some(values.push(v)),
            _ => None,
        }
    }
}

/// The first `n` fields of a record with their values, if each shown one holds a value. A
/// hidden field has its default value.
pub open spec fn record_values(
    types: &Types,
    described: Seq<StructField>,
    fields: Seq<Option<BuilderView>>,
    n: int,
) -> Option<Seq<(Seq<char>, ValueView)>>
    decreases fields, n,
{
    if n <= 0 || n > fields.len() {
        Some(Seq::empty())
    } else {
        match record_values(types, described, fields, n - 1) {
            None => None,
            Some(values) => match fields[n - 1] {
                None => match described[n - 1].metadata.default {
                    Some(v) => Some(values.push((described[n - 1].ident@, v@))),
                    None => None,
                },
                Some(b) => match b.value(types) {
                    Some(v) => Some(values.push((described[n - 1].ident@, v))),
                    None => None,
                },
            },
        }
    }
}

/// How the first `n` items of a list are displayed.
pub open spec fn list_nodes(types: &Types, items: Seq<BuilderView>, n: int) -> Seq<FieldKindView>
    decreases items, n,
{
    if n <= 0 || n > items.len() {
        Seq::empty()
    } else {
        list_nodes(types, items, n - 1).push(FieldKindView::Unnamed(items[n - 1].node(types)))
    }
}

/// How the shown ones of the first `n` fields are displayed.
pub open spec fn record_nodes(
    types: &Types,
    described: Seq<StructField>,
    fields: Seq<Option<BuilderView>>,
    n: int,
) -> Seq<FieldKindView>
    decreases fields, n,
{
    if n <= 0 || n > fields.len() {
        Seq::empty()
    } else {
        let before = record_nodes(types, described, fields, n - 1);
        match fields[n - 1] {
            None => before,
            Some(b) => before.push(FieldKindView::Named(described[n - 1].name(), b.node(types))),
        }
    }
}

/// The choices that lead to the first `n` items of a list.
pub open spec fn item_choices(types: &Types, items: Seq<BuilderView>, n: int) -> Seq<ChoiceView>
    decreases items, n,
{
    if n <= 0 || n > items.len() {
        Seq::empty()
    } else {
        item_choices(types, items, n - 1).push(
            ChoiceView {
                choice_id: nat_text((n - 1) as nat),
                text: "Edit item "@ + nat_text((n - 1) as nat),
                needs_action: items[n - 1].value(types) is None,
            },
        )
    }
}

/// The choices that remove one of the first `n` items of a list.
pub open spec fn removal_choices(n: int) -> Seq<ChoiceView>
    decreases n,
{
    if n <= 0 {
        Seq::empty()
    } else {
        removal_choices(n - 1).push(
            ChoiceView {
                choice_id: nat_text((n - 1) as nat),
                text: "Remove item "@ + nat_text((n - 1) as nat),
                needs_action: false,
            },
        )
    }
}

/// The decimal notations of the first `n` indices.
pub open spec fn index_texts(n: int) -> Seq<Seq<char>>
    decreases n,
{
    if n <= 0 {
        Seq::empty()
    } else {
        index_texts(n - 1).push(nat_text((n - 1) as nat))
    }
}

/// The choices that lead to the shown ones of the first `n` fields.
pub open spec fn field_choices(
    types: &Types,
    described: Seq<StructField>,
    fields: Seq<Option<BuilderView>>,
    n: int,
) -> Seq<ChoiceView>
    decreases fields, n,
{
    if n <= 0 || n > fields.len() {
        Seq::empty()
    } else {
        let before = field_choices(types, described, fields, n - 1);
        match fields[n - 1] {
            None => before,
            Some(b) => before.push(
                ChoiceView {
                    choice_id: described[n - 1].ident@,
                    text: "Edit "@ + described[n - 1].name(),
                    needs_action: b.value(types) is None,
                },
            ),
        }
    }
}

/// The identifiers of the shown ones of the first `n` fields.
pub open spec fn field_idents(described: Seq<StructField>, n: int) -> Seq<Seq<char>>
    decreases n,
{
    if n <= 0 || n > described.len() {
        Seq::empty()
    } else if described[n - 1].metadata.hidden {
        field_idents(described, n - 1)
    } else {
        field_idents(described, n - 1).push(described[n - 1].ident@)
    }
}

/// Whether the variant in use is the one at position `k`, has fields, and its builder holds
/// no value yet.
pub open spec fn variant_needs_action(
    types: &Types,
    value: Option<(usize, Option<Box<BuilderView>>)>,
    k: int,
) -> bool
    decreases value, 0nat,
{
    match value {
        Some((used, Some(inner))) => used == k && inner.value(types) is None,
        _ => false,
    }
}

/// The choices that select the ones of the first `n` variants that are not hidden.
pub open spec fn variant_choices(
    types: &Types,
    generator: usize,
    value: Option<(usize, Option<Box<BuilderView>>)>,
    n: int,
) -> Seq<ChoiceView>
    decreases value, n + 1,
{
    let variants = variants_of(types, generator);
    if n <= 0 || n > variants.len() {
        Seq::empty()
    } else {
        let before = variant_choices(types, generator, value, n - 1);
        if variants[n - 1].metadata.hidden {
            before
        } else {
            before.push(
                ChoiceView {
                    choice_id: variants[n - 1].ident@,
                    text: variants[n - 1].name(),
                    needs_action: variant_needs_action(types, value, n - 1),
                },
            )
        }
    }
}

/// The identifiers of the ones of the first `n` variants that are not hidden and have
/// fields.
pub open spec fn variant_idents(types: &Types, generator: usize, n: int) -> Seq<Seq<char>>
    decreases n,
{
    let variants = variants_of(types, generator);
    if n <= 0 || n > variants.len() {
        Seq::empty()
    } else if variants[n - 1].metadata.hidden || variants[n - 1].kind is Empty {
        variant_idents(types, generator, n - 1)
    } else {
        variant_idents(types, generator, n - 1).push(variants[n - 1].ident@)
    }
}

/// The largest rank among the types of the shown ones of the first `n` fields.
pub open spec fn fields_rank(fields: Seq<StructField>, n: int) -> nat
    decreases n,
{
    if n <= 0 || n > fields.len() {
        0
    } else {
        let before = fields_rank(fields, n - 1);
        if fields[n - 1].metadata.hidden || fields[n - 1].ty.rank() <= before {
            before
        } else {
            fields[n - 1].ty.rank()
        }
    }
}

/// Where the fields are valid with a bound on their ranks, no shown field has a larger rank.
pub proof fn lemma_fields_rank(fields: Seq<StructField>, n: int, total: int, i: int, named: bool)
    requires
        crate::schema::fields_valid(fields, total, i, true, named),
        0 <= i,
    ensures
        fields_rank(fields, n) <= i,
    decreases n,
{
    if n > 0 && n <= fields.len() {
        lemma_fields_rank(fields, n - 1, total, i, named);
        assert(fields[n - 1].valid(total, i, true, named));
    }
}

/// The state of a new builder of a type, made with a default value and a prompt.
///
/// A default value is taken by a plain type of its kind and by a boolean, and by no other
/// type. A list starts without items, an optional value unset, an enum with its default
/// variant, if it has one, and a struct with a new builder for each of its shown fields.
pub open spec fn fresh(
    types: &Types,
    ty: &Type,
    default: Option<ValueView>,
    prompt: Option<Seq<char>>,
) -> BuilderView
    decreases ty.rank(), 0nat, ty.height(),
    when types.wf() && ty.closed(types.generators().len() as int)
{
    match ty {
        Type::Plain(kind) => BuilderView::Plain {
            kind: *kind,
            value: match default {
                Some(v) => if v.plain() == Some(*kind) {
                    Some(v)
                } else {
                    None
                },
                None => None,
            },
            prompt: or_text(prompt, kind.query()),
        },
        Type::Bool => BuilderView::Bool {
            value: match default {
                Some(ValueView::Bool(b)) => Some(b),
                _ => None,
            },
            prompt: or_text(prompt, "True or false?"@),
        },
        Type::List(t) => BuilderView::List {
            items: Seq::empty(),
            element: **t,
            prompt: or_text(prompt, "Select an action"@),
        },
        Type::Optional(t) => BuilderView::Optional {
            value: None,
            element: **t,
            prompt: or_text(prompt, "Choose an option"@),
        },
        Type::Boxed(t) => BuilderView::Boxed { value: Box::new(fresh(types, &**t, None, prompt)) },
        Type::Named(i) => match types.generators()[*i as int] {
            Generator::Struct(g) => {
                proof {
                    types.lemma_fields_valid(Shape::Struct(*i));
                    lemma_fields_rank(
                        g.fields@,
                        g.fields@.len() as int,
                        types.generators().len() as int,
                        *i as int,
                        g.named_fields,
                    );
                }
                fresh_struct(types, Shape::Struct(*i), prompt)
            },
            Generator::Enum(g) => {
                proof {
                    g.lemma_default_variant(g.variants@.len() as int);
                    assert(g.variants@.len() == g.variants.len());
                }
                BuilderView::Enum {
                    generator: *i,
                    value: match g.default_variant(g.variants@.len() as int) {
                        Some(k) => {
                            proof {
                                if g.variants@[k].kind !is Empty {
                                    types.lemma_fields_valid(Shape::Variant(*i, k as usize));
                                    lemma_fields_rank(
                                        g.variants@[k].kind.fields(),
                                        g.variants@[k].kind.fields().len() as int,
                                        types.generators().len() as int,
                                        *i as int,
                                        g.variants@[k].kind is Named,
                                    );
                                }
                            }
                            Some((k as usize, fresh_variant(types, *i, k)))
                        },
                        None => None,
                    },
                    prompt: or_text(
                        or_else(prompt, opt_text(g.metadata.prompt)),
                        "Select a variant"@,
                    ),
                }
            },
        },
    }
}

/// The state of a new builder of the fields of a variant: nothing for a variant without
/// fields.
pub open spec fn fresh_variant(types: &Types, generator: usize, k: int) -> Option<Box<BuilderView>>
    decreases
        fields_rank(
            variants_of(types, generator)[k].kind.fields(),
            variants_of(types, generator)[k].kind.fields().len() as int,
        ),
        3nat,
        0nat,
    when types.wf() && generator < types.generators().len() && types.generators()[generator as int] is Enum
        && 0 <= k < variants_of(types, generator).len()
{
    let variant = variants_of(types, generator)[k];
    if variant.kind is Empty {
        None
    } else {
        proof {
            let variants = types.generators()[generator as int]->Enum_0.variants;
            assert(variants@.len() == variants.len());
        }
        Some(
            Box::new(
                fresh_struct(
                    types,
                    Shape::Variant(generator, k as usize),
                    opt_text(variant.metadata.prompt),
                ),
            ),
        )
    }
}

/// The state of a new builder of a struct, or of the fields of a variant.
///
/// The prompt is the one given, else the one of the shape, else the usual one. An unnamed
/// field without a prompt of its own takes the prompt of the shape.
pub open spec fn fresh_struct(types: &Types, shape: Shape, prompt: Option<Seq<char>>) -> BuilderView
    decreases fields_rank(types.fields(shape), types.fields(shape).len() as int), 2nat, 0nat,
    when types.wf() && types.has(shape)
{
    BuilderView::Struct {
        shape,
        fields: fresh_fields(types, shape, types.fields(shape).len() as int),
        prompt: or_text(or_else(prompt, types.prompt(shape)), "Select the field to edit"@),
    }
}

/// The prompt with which the builder of a field is made.
pub open spec fn field_prompt(types: &Types, shape: Shape, j: int) -> Option<Seq<char>> {
    let own = opt_text(types.fields(shape)[j].metadata.prompt);
    if types.named(shape) {
        own
    } else {
        or_else(own, types.prompt(shape))
    }
}

/// The default value with which the builder of a field is made.
pub open spec fn field_default(types: &Types, shape: Shape, j: int) -> Option<ValueView> {
    match types.fields(shape)[j].metadata.default {
        Some(v) => Some(v@),
        None => None,
    }
}

/// The states of new builders for the first `n` fields of a shape: nothing for a hidden
/// field.
pub open spec fn fresh_fields(types: &Types, shape: Shape, n: int) -> Seq<Option<BuilderView>>
    decreases fields_rank(types.fields(shape), n), 1nat, n,
    when types.wf() && types.has(shape)
{
    let fields = types.fields(shape);
    if n <= 0 || n > fields.len() {
        Seq::empty()
    } else {
        let before = fresh_fields(types, shape, n - 1);
        if fields[n - 1].metadata.hidden {
            before.push(None)
        } else {
            proof {
                types.lemma_fields_valid(shape);
                assert(fields[n - 1].valid(
                    types.generators().len() as int,
                    Types::position(shape),
                    types.eager(shape),
                    types.named(shape),
                ));
            }
            before.push(
                Some(
                    fresh(
                        types,
                        &fields[n - 1].ty,
                        field_default(types, shape, n - 1),
                        field_prompt(types, shape, n - 1),
                    ),
                ),
            )
        }
    }
}

/// The options of a menu without text input.
pub open spec fn menu(query: Seq<char>, choices: Seq<ChoiceView>) -> OptionsView {
    OptionsView { query, text_input: false, choices }
}

/// A choice that never needs action.
pub open spec fn plain_choice(choice_id: Seq<char>, text: Seq<char>) -> ChoiceView {
    ChoiceView { choice_id, text, needs_action: false }
}

impl BuilderView {
    /// Whether the state is one that a builder over these types can be in.
    pub open spec fn wf(self, types: &Types) -> bool
        decreases self,
    {
        match self {
            BuilderView::Plain { kind, value, prompt } => value matches Some(v) ==> v.plain()
                == Some(kind),
            BuilderView::Bool { value, prompt } => true,
            BuilderView::List { items, element, prompt } => {
                &&& element.closed(types.generators().len() as int)
                &&& forall|i: int| 0 <= i < items.len() ==> (#[trigger] items[i]).wf(types)
            },
            BuilderView::Optional { value, element, prompt } => {
                &&& element.closed(types.generators().len() as int)
                &&& value matches Some(inner) ==> inner.wf(types)
            },
            BuilderView::Boxed { value } => value.wf(types),
            BuilderView::Struct { shape, fields, prompt } => {
                &&& types.has(shape)
                &&& fields.len() == types.fields(shape).len()
                &&& forall|j: int|
                    0 <= j < fields.len() ==> (#[trigger] fields[j] is None)
                        == types.fields(shape)[j].metadata.hidden
                &&& forall|j: int|
                    0 <= j < fields.len() ==> (#[trigger] fields[j] matches Some(b) ==> b.wf(types))
            },
            BuilderView::Enum { generator, value, prompt } => {
                &&& generator < types.generators().len()
                &&& types.generators()[generator as int] is Enum
                &&& value matches Some((k, inner)) ==> {
                    &&& k < variants_of(types, generator).len()
                    &&& !variants_of(types, generator)[k as int].metadata.hidden
                    &&& inner is None == variants_of(types, generator)[k as int].kind is Empty
                    &&& inner matches Some(b) ==> b.wf(types)
                }
            },
        }
    }

    /// Whether no list in the state has more items than can be counted in a `usize`. This
    /// holds of the state of every executable builder.
    pub open spec fn countable(self) -> bool
        decreases self,
    {
        match self {
            BuilderView::List { items, element, prompt } => {
                &&& items.len() <= usize::MAX
                &&& forall|i: int| 0 <= i < items.len() ==> (#[trigger] items[i]).countable()
            },
            BuilderView::Optional { value, element, prompt } => value matches Some(inner)
                ==> inner.countable(),
            BuilderView::Boxed { value } => value.countable(),
            BuilderView::Struct { shape, fields, prompt } => forall|j: int|
                0 <= j < fields.len() ==> (#[trigger] fields[j] matches Some(b) ==> b.countable()),
            BuilderView::Enum { generator, value, prompt } => value matches Some((k, Some(inner)))
                ==> inner.countable(),
            _ => true,
        }
    }

    /// The value that the builder holds, if it is complete.
    ///
    /// A list is complete when each item is; an optional value when it is unset or its value
    /// is complete; a struct when each shown field is; an enum when a variant is in use and
    /// its fields, if any, are complete.
    pub open spec fn value(self, types: &Types) -> Option<ValueView>
        decreases self, 0nat,
    {
        match self {
            BuilderView::Plain { kind, value, prompt } => value,
            BuilderView::Bool { value, prompt } => match value {
                Some(b) => Some(ValueView::Bool(b)),
                None => None,
            },
            BuilderView::List { items, element, prompt } => match list_values(
                types,
                items,
                items.len() as int,
            ) {
                Some(values) => Some(ValueView::List(values)),
                None => None,
            },
            BuilderView::Optional { value, element, prompt } => match value {
                None => Some(ValueView::Optional(None)),
                Some(inner) => match inner.value(types) {
                    Some(v) => Some(ValueView::Optional(Some(Box::new(v)))),
                    None => None,
                },
            },
            BuilderView::Boxed { value } => match value.value(types) {
                Some(v) => Some(ValueView::Boxed(Box::new(v))),
                None => None,
            },
            BuilderView::Struct { shape, fields, prompt } => if types.named(shape) {
                match record_values(types, types.fields(shape), fields, fields.len() as int) {
                    Some(values) => Some(ValueView::Record(types.ident(shape), values)),
                    None => None,
                }
            } else {
                match sole_field(fields) {
                    Some(b) => match b.value(types) {
                        Some(v) => Some(ValueView::Wrapper(types.ident(shape), Box::new(v))),
                        None => None,
                    },
                    None => None,
                }
            },
            BuilderView::Enum { generator, value, prompt } => match value {
                None => None,
                Some((k, None)) => Some(ValueView::Unit(variants_of(types, generator)[k as int].ident@)),
                Some((k, Some(inner))) => inner.value(types),
            },
        }
    }

    /// How the builder is displayed.
    pub open spec fn node(self, types: &Types) -> NodeView
        decreases self, 0nat,
    {
        match self {
            BuilderView::Plain { kind, value, prompt } => match value {
                Some(v) => NodeView::Leaf(FieldView::String(v.text())),
                None => NodeView::Leaf(FieldView::Missing),
            },
            BuilderView::Bool { value, prompt } => match value {
                Some(b) => NodeView::Leaf(FieldView::String(ValueView::Bool(b).text())),
                None => NodeView::Leaf(FieldView::Missing),
            },
            BuilderView::List { items, element, prompt } => NodeView::Composite(
                Seq::empty(),
                list_nodes(types, items, items.len() as int),
            ),
            BuilderView::Optional { value, element, prompt } => match value {
                None => NodeView::Leaf(FieldView::String("None"@)),
                Some(inner) => inner.node(types),
            },
            BuilderView::Boxed { value } => value.node(types),
            BuilderView::Struct { shape, fields, prompt } => if types.named(shape) {
                NodeView::Composite(
                    types.name(shape),
                    record_nodes(types, types.fields(shape), fields, fields.len() as int),
                )
            } else {
                match sole_field(fields) {
                    Some(b) => NodeView::Composite(
                        types.name(shape),
                        seq![FieldKindView::Unnamed(b.node(types))],
                    ),
                    None => NodeView::Composite(types.name(shape), Seq::empty()),
                }
            },
            BuilderView::Enum { generator, value, prompt } => match value {
                None => NodeView::Leaf(FieldView::Missing),
                Some((k, None)) => NodeView::Leaf(
                    FieldView::String(variants_of(types, generator)[k as int].name()),
                ),
                Some((k, Some(inner))) => inner.node(types),
            },
        }
    }

    /// Whether a path leads to a builder below this one, or to the removal menu of a list.
    /// The empty path leads to this builder.
    pub open spec fn valid_path(self, types: &Types, path: Seq<Seq<char>>) -> bool
        decreases self,
    {
        match self {
            BuilderView::Plain { kind, value, prompt } => path.len() == 0,
            BuilderView::Bool { value, prompt } => path.len() == 0,
            BuilderView::List { items, element, prompt } => path.len() == 0 || path[0]
                == REMOVE_ID@ || match find_item(items.len(), path[0]) {
                Some(i) => items[i].valid_path(types, path.skip(1)),
                None => false,
            },
            BuilderView::Optional { value, element, prompt } => path.len() == 0 || ((path[0]
                == EDIT_ID@ || path[0] == SET_ID@) && match value {
                Some(inner) => inner.valid_path(types, path.skip(1)),
                None => false,
            }),
            BuilderView::Boxed { value } => value.valid_path(types, path),
            BuilderView::Struct { shape, fields, prompt } => if types.named(shape) {
                path.len() == 0 || match shown_field(types.fields(shape), fields, path[0]) {
                    Some((j, b)) => b.valid_path(types, path.skip(1)),
                    None => false,
                }
            } else {
                match sole_field(fields) {
                    Some(b) => b.valid_path(types, path),
                    None => false,
                }
            },
            BuilderView::Enum { generator, value, prompt } => path.len() == 0 || match (
                find_variant(types, generator, path[0], 0),
                value,
            ) {
                (Some(k), Some((used, Some(inner)))) => k == used && inner.valid_path(
                    types,
                    path.skip(1),
                ),
                _ => false,
            },
        }
    }

    /// Whether an input can be applied at a path. This holds of every valid path, and also
    /// where a segment names no shown field of a struct: the input is then refused.
    pub open spec fn accepts_path(self, types: &Types, path: Seq<Seq<char>>) -> bool
        decreases self,
    {
        match self {
            BuilderView::Plain { kind, value, prompt } => path.len() == 0,
            BuilderView::Bool { value, prompt } => path.len() == 0,
            BuilderView::List { items, element, prompt } => path.len() == 0 || path[0]
                == REMOVE_ID@ || match find_item(items.len(), path[0]) {
                Some(i) => items[i].accepts_path(types, path.skip(1)),
                None => false,
            },
            BuilderView::Optional { value, element, prompt } => path.len() == 0 || ((path[0]
                == EDIT_ID@ || path[0] == SET_ID@) && match value {
                Some(inner) => inner.accepts_path(types, path.skip(1)),
                None => false,
            }),
            BuilderView::Boxed { value } => value.accepts_path(types, path),
            BuilderView::Struct { shape, fields, prompt } => if types.named(shape) {
                path.len() == 0 || match shown_field(types.fields(shape), fields, path[0]) {
                    Some((j, b)) => b.accepts_path(types, path.skip(1)),
                    None => find_field(types.fields(shape), path[0], 0) is None,
                }
            } else {
                match sole_field(fields) {
                    Some(b) => b.accepts_path(types, path),
                    None => false,
                }
            },
            BuilderView::Enum { generator, value, prompt } => path.len() == 0 || match (
                find_variant(types, generator, path[0], 0),
                value,
            ) {
                (Some(k), Some((used, Some(inner)))) => k == used && inner.accepts_path(
                    types,
                    path.skip(1),
                ),
                _ => false,
            },
        }
    }

    /// The segments by which the path can be extended: the choices that lead further down.
    pub open spec fn subfields(self, types: &Types, path: Seq<Seq<char>>) -> Seq<Seq<char>>
        decreases self,
    {
        match self {
            BuilderView::Plain { kind, value, prompt } => Seq::empty(),
            BuilderView::Bool { value, prompt } => Seq::empty(),
            BuilderView::List { items, element, prompt } => if path.len() == 0 {
                if items.len() == 0 {
                    seq![NEW_ID@]
                } else {
                    seq![NEW_ID@, REMOVE_ID@] + index_texts(items.len() as int)
                }
            } else if path[0] == REMOVE_ID@ {
                Seq::empty()
            } else {
                match find_item(items.len(), path[0]) {
                    Some(i) => items[i].subfields(types, path.skip(1)),
                    None => Seq::empty(),
                }
            },
            BuilderView::Optional { value, element, prompt } => match value {
                Some(inner) => if path.len() == 0 {
                    seq![EDIT_ID@]
                } else {
                    inner.subfields(types, path.skip(1))
                },
                None => if path.len() == 0 {
                    seq![SET_ID@]
                } else {
                    Seq::empty()
                },
            },
            BuilderView::Boxed { value } => value.subfields(types, path),
            BuilderView::Struct { shape, fields, prompt } => if types.named(shape) {
                if path.len() == 0 {
                    field_idents(types.fields(shape), fields.len() as int)
                } else {
                    match shown_field(types.fields(shape), fields, path[0]) {
                        Some((j, b)) => b.subfields(types, path.skip(1)),
                        None => Seq::empty(),
                    }
                }
            } else {
                match sole_field(fields) {
                    Some(b) => b.subfields(types, path),
                    None => Seq::empty(),
                }
            },
            BuilderView::Enum { generator, value, prompt } => if path.len() == 0 {
                variant_idents(types, generator, variants_of(types, generator).len() as int)
            } else {
                match value {
                    Some((used, Some(inner))) => inner.subfields(types, path.skip(1)),
                    _ => Seq::empty(),
                }
            },
        }
    }

    /// What is offered at a path: the query and the choices of the builder that the path
    /// leads to.
    pub open spec fn options(self, types: &Types, path: Seq<Seq<char>>) -> OptionsView
        decreases self, 0nat,
    {
        match self {
            BuilderView::Plain { kind, value, prompt } => OptionsView {
                query: prompt,
                text_input: true,
                choices: Seq::empty(),
            },
            BuilderView::Bool { value, prompt } => menu(
                prompt,
                seq![plain_choice("true"@, "true"@), plain_choice("false"@, "false"@)],
            ),
            BuilderView::List { items, element, prompt } => if path.len() == 0 {
                if items.len() == 0 {
                    menu(prompt, seq![plain_choice(NEW_ID@, "New element"@)])
                } else {
                    menu(
                        prompt,
                        seq![
                            plain_choice(NEW_ID@, "New element"@),
                            plain_choice(REMOVE_ID@, "Remove element"@),
                        ] + item_choices(types, items, items.len() as int),
                    )
                }
            } else if path[0] == REMOVE_ID@ {
                menu("Select the item to remove"@, removal_choices(items.len() as int))
            } else {
                match find_item(items.len(), path[0]) {
                    Some(i) => items[i].options(types, path.skip(1)),
                    None => menu(prompt, Seq::empty()),
                }
            },
            BuilderView::Optional { value, element, prompt } => match value {
                Some(inner) => if path.len() == 0 {
                    menu(
                        prompt,
                        seq![
                            plain_choice(REMOVE_ID@, "Remove value"@),
                            plain_choice(EDIT_ID@, "Edit value"@),
                        ],
                    )
                } else {
                    inner.options(types, path.skip(1))
                },
                None => if path.len() == 0 {
                    menu(prompt, seq![plain_choice(SET_ID@, "Set value"@)])
                } else {
                    menu(prompt, Seq::empty())
                },
            },
            BuilderView::Boxed { value } => value.options(types, path),
            BuilderView::Struct { shape, fields, prompt } => if types.named(shape) {
                if path.len() == 0 {
                    menu(
                        prompt,
                        field_choices(types, types.fields(shape), fields, fields.len() as int),
                    )
                } else {
                    match shown_field(types.fields(shape), fields, path[0]) {
                        Some((j, b)) => b.options(types, path.skip(1)),
                        None => menu(prompt, Seq::empty()),
                    }
                }
            } else {
                match sole_field(fields) {
                    Some(b) => b.options(types, path),
                    None => menu(prompt, Seq::empty()),
                }
            },
            BuilderView::Enum { generator, value, prompt } => if path.len() == 0 {
                menu(
                    prompt,
                    variant_choices(
                        types,
                        generator,
                        value,
                        variants_of(types, generator).len() as int,
                    ),
                )
            } else {
                match value {
                    Some((used, Some(inner))) => inner.options(types, path.skip(1)),
                    _ => menu(prompt, Seq::empty()),
                }
            },
        }
    }

    /// The state that an input leads to when it is applied at a path, or the reason for which
    /// the input is refused. A refused input changes nothing.
    pub open spec fn apply(self, types: &Types, input: InputView, path: Seq<Seq<char>>) -> Result<
        BuilderView,
        ChooseErrorView,
    >
        decreases self,
    {
        match self {
            BuilderView::Plain { kind, value, prompt } => match input {
                InputView::Text(text) => match kind.parse(text) {
                    Ok(v) => Ok(BuilderView::Plain { kind, value: Some(v), prompt }),
                    Err(error) => Err(ChooseErrorView::InvalidText { error }),
                },
                InputView::Choice(_) => Err(ChooseErrorView::UnexpectedChoice),
            },
            BuilderView::Bool { value, prompt } => match input {
                InputView::Choice(id) => if id == "true"@ {
                    Ok(BuilderView::Bool { value: Some(true), prompt })
                } else if id == "false"@ {
                    Ok(BuilderView::Bool { value: Some(false), prompt })
                } else {
                    Err(ChooseErrorView::UnexpectedChoice)
                },
                InputView::Text(_) => Err(ChooseErrorView::UnexpectedText),
            },
            BuilderView::List { items, element, prompt } => if path.len() == 0 {
                match input {
                    InputView::Choice(id) => if id == NEW_ID@ {
                        Ok(
                            BuilderView::List {
                                items: items.push(fresh(types, &element, None, None)),
                                element,
                                prompt,
                            },
                        )
                    } else if id == REMOVE_ID@ {
                        if items.len() > 0 {
                            Ok(self)
                        } else {
                            Err(ChooseErrorView::UnexpectedChoice)
                        }
                    } else {
                        match parse_index(id) {
                            Some(i) => if 0 <= i < items.len() {
                                Ok(self)
                            } else {
                                Err(ChooseErrorView::UnexpectedChoice)
                            },
                            None => Err(ChooseErrorView::UnexpectedChoice),
                        }
                    },
                    InputView::Text(_) => Err(ChooseErrorView::UnexpectedText),
                }
            } else if path[0] == REMOVE_ID@ {
                match input {
                    InputView::Choice(id) => match parse_index(id) {
                        Some(i) => if 0 <= i < items.len() {
                            Ok(BuilderView::List { items: items.remove(i), element, prompt })
                        } else {
                            Err(ChooseErrorView::UnexpectedChoice)
                        },
                        None => Err(ChooseErrorView::UnexpectedChoice),
                    },
                    InputView::Text(_) => Err(ChooseErrorView::UnexpectedText),
                }
            } else {
                match find_item(items.len(), path[0]) {
                    Some(i) => match items[i].apply(types, input, path.skip(1)) {
                        Ok(item) => Ok(
                            BuilderView::List { items: items.update(i, item), element, prompt },
                        ),
                        Err(e) => Err(e),
                    },
                    None => Err(ChooseErrorView::UnexpectedChoice),
                }
            },
            BuilderView::Optional { value, element, prompt } => if path.len() == 0 {
                match input {
                    InputView::Choice(id) => match value {
                        Some(inner) => if id == REMOVE_ID@ {
                            Ok(BuilderView::Optional { value: None, element, prompt })
                        } else if id == EDIT_ID@ {
                            Ok(self)
                        } else {
                            Err(ChooseErrorView::UnexpectedChoice)
                        },
                        None => if id == SET_ID@ {
                            Ok(
                                BuilderView::Optional {
                                    value: Some(Box::new(fresh(types, &element, None, None))),
                                    element,
                                    prompt,
                                },
                            )
                        } else {
                            Err(ChooseErrorView::UnexpectedChoice)
                        },
                    },
                    InputView::Text(_) => Err(ChooseErrorView::UnexpectedText),
                }
            } else {
                match value {
                    Some(inner) => match inner.apply(types, input, path.skip(1)) {
                        Ok(b) => Ok(
                            BuilderView::Optional { value: Some(Box::new(b)), element, prompt },
                        ),
                        Err(e) => Err(e),
                    },
                    None => Err(ChooseErrorView::UnexpectedChoice),
                }
            },
            BuilderView::Boxed { value } => match value.apply(types, input, path) {
                Ok(b) => Ok(BuilderView::Boxed { value: Box::new(b) }),
                Err(e) => Err(e),
            },
            BuilderView::Struct { shape, fields, prompt } => if types.named(shape) {
                if path.len() == 0 {
                    match input {
                        InputView::Choice(id) => match find_field(types.fields(shape), id, 0) {
                            Some(_) => Ok(self),
                            None => Err(ChooseErrorView::UnexpectedChoice),
                        },
                        InputView::Text(_) => Err(ChooseErrorView::UnexpectedText),
                    }
                } else {
                    match shown_field(types.fields(shape), fields, path[0]) {
                        Some((j, b)) => match b.apply(types, input, path.skip(1)) {
                            Ok(field) => Ok(
                                BuilderView::Struct {
                                    shape,
                                    fields: fields.update(j, Some(field)),
                                    prompt,
                                },
                            ),
                            Err(e) => Err(e),
                        },
                        None => Err(ChooseErrorView::UnexpectedChoice),
                    }
                }
            } else {
                match sole_field(fields) {
                    Some(b) => match b.apply(types, input, path) {
                        Ok(field) => Ok(
                            BuilderView::Struct {
                                shape,
                                fields: fields.update(0, Some(field)),
                                prompt,
                            },
                        ),
                        Err(e) => Err(e),
                    },
                    None => Err(ChooseErrorView::UnexpectedChoice),
                }
            },
            BuilderView::Enum { generator, value, prompt } => if path.len() == 0 {
                match input {
                    InputView::Choice(id) => match find_variant(types, generator, id, 0) {
                        Some(k) => if value matches Some((used, _)) && used == k {
                            Ok(self)
                        } else {
                            Ok(
                                BuilderView::Enum {
                                    generator,
                                    value: Some((k as usize, fresh_variant(types, generator, k))),
                                    prompt,
                                },
                            )
                        },
                        None => Err(ChooseErrorView::UnexpectedChoice),
                    },
                    InputView::Text(_) => Err(ChooseErrorView::UnexpectedText),
                }
            } else {
                match value {
                    Some((used, Some(inner))) => match inner.apply(types, input, path.skip(1)) {
                        Ok(b) => Ok(
                            BuilderView::Enum {
                                generator,
                                value: Some((used, Some(Box::new(b)))),
                                prompt,
                            },
                        ),
                        Err(e) => Err(e),
                    },
                    _ => Err(ChooseErrorView::UnexpectedChoice),
                }
            },
        }
    }
}

/// Where an item among the first `i` holds no value, the first `n` do not all hold one.
pub proof fn lemma_list_values_none(types: &Types, items: Seq<BuilderView>, i: int, n: int)
    requires
        0 <= i <= n <= items.len(),
        list_values(types, items, i) is None,
    ensures
        list_values(types, items, n) is None,
    decreases n - i,
{
    if i < n {
        lemma_list_values_none(types, items, i, n - 1);
    }
}

/// Where a field among the first `i` holds no value, the first `n` do not all hold one.
pub proof fn lemma_record_values_none(
    types: &Types,
    described: Seq<StructField>,
    fields: Seq<Option<BuilderView>>,
    i: int,
    n: int,
)
    requires
        0 <= i <= n <= fields.len(),
        record_values(types, described, fields, i) is None,
    ensures
        record_values(types, described, fields, n) is None,
    decreases n - i,
{
    if i < n {
        lemma_record_values_none(types, described, fields, i, n - 1);
    }
}

/// The rank of the type of a shown field is at most the largest rank among the fields up to
/// any later one.
pub proof fn lemma_fields_rank_bound(fields: Seq<StructField>, j: int, n: int)
    requires
        0 <= j < n <= fields.len(),
        !fields[j].metadata.hidden,
    ensures
        fields[j].ty.rank() <= fields_rank(fields, n),
        fields_rank(fields, j + 1) <= fields_rank(fields, n),
    decreases n - j,
{
    if j + 1 < n {
        lemma_fields_rank_bound(fields, j, n - 1);
    }
}

/// The states of new builders for the first `n` fields are `n` states, one for each shown
/// field and none for a hidden one, each one that a builder can be in; and they stay as they
/// are when more fields follow.
pub proof fn lemma_fresh_fields(types: &Types, shape: Shape, n: int)
    requires
        types.wf(),
        types.has(shape),
        0 <= n <= types.fields(shape).len(),
    ensures
        fresh_fields(types, shape, n).len() == n,
        forall|j: int|
            0 <= j < n ==> (#[trigger] fresh_fields(types, shape, n)[j] is None) == types.fields(
                shape,
            )[j].metadata.hidden,
        forall|j: int|
            0 <= j < n ==> (#[trigger] fresh_fields(types, shape, n)[j] matches Some(b) ==> b.wf(
                types,
            )),
        forall|j: int|
            0 <= j < n ==> #[trigger] fresh_fields(types, shape, n)[j] == fresh_fields(
                types,
                shape,
                j + 1,
            )[j],
    decreases fields_rank(types.fields(shape), n), 1nat, n,
{
    if n > 0 {
        let fields = types.fields(shape);
        lemma_fresh_fields(types, shape, n - 1);
        if !fields[n - 1].metadata.hidden {
            types.lemma_fields_valid(shape);
            assert(fields[n - 1].valid(
                types.generators().len() as int,
                Types::position(shape),
                types.eager(shape),
                types.named(shape),
            ));
            lemma_fresh_wf(
                types,
                &fields[n - 1].ty,
                field_default(types, shape, n - 1),
                field_prompt(types, shape, n - 1),
            );
        }
    }
}

/// A new builder of a struct is in a state that a builder can be in.
pub proof fn lemma_fresh_struct_wf(types: &Types, shape: Shape, prompt: Option<Seq<char>>)
    requires
        types.wf(),
        types.has(shape),
    ensures
        fresh_struct(types, shape, prompt).wf(types),
    decreases fields_rank(types.fields(shape), types.fields(shape).len() as int), 2nat, 0nat,
{
    lemma_fresh_fields(types, shape, types.fields(shape).len() as int);
}

/// A new builder for the fields of a variant is in a state that a builder can be in.
pub proof fn lemma_fresh_variant_wf(types: &Types, generator: usize, k: int)
    requires
        types.wf(),
        types.has_enum(generator),
        0 <= k < variants_of(types, generator).len(),
    ensures
        fresh_variant(types, generator, k) is None == variants_of(types, generator)[k].kind is Empty,
        fresh_variant(types, generator, k) matches Some(b) ==> b.wf(types),
    decreases
        fields_rank(
            variants_of(types, generator)[k].kind.fields(),
            variants_of(types, generator)[k].kind.fields().len() as int,
        ),
        3nat,
        0nat,
{
    let variant = variants_of(types, generator)[k];
    if variant.kind !is Empty {
        let variants = types.generators()[generator as int]->Enum_0.variants;
        assert(variants@.len() == variants.len());
        lemma_fresh_struct_wf(
            types,
            Shape::Variant(generator, k as usize),
            opt_text(variant.metadata.prompt),
        );
    }
}

/// A new builder is in a state that a builder can be in.
pub proof fn lemma_fresh_wf(
    types: &Types,
    ty: &Type,
    default: Option<ValueView>,
    prompt: Option<Seq<char>>,
)
    requires
        types.wf(),
        ty.closed(types.generators().len() as int),
    ensures
        fresh(types, ty, default, prompt).wf(types),
    decreases ty.rank(), 0nat, ty.height(),
{
    match ty {
        Type::Boxed(t) => {
            lemma_fresh_wf(types, &**t, None, prompt);
        },
        Type::Named(i) => match types.generators()[*i as int] {
            Generator::Struct(g) => {
                types.lemma_fields_valid(Shape::Struct(*i));
                lemma_fields_rank(
                    g.fields@,
                    g.fields@.len() as int,
                    types.generators().len() as int,
                    *i as int,
                    g.named_fields,
                );
                lemma_fresh_struct_wf(types, Shape::Struct(*i), prompt);
            },
            Generator::Enum(g) => {
                g.lemma_default_variant(g.variants@.len() as int);
                assert(g.variants@.len() == g.variants.len());
                match g.default_variant(g.variants@.len() as int) {
                    Some(k) => {
                        assert(types.generators()[*i as int].valid(
                            types.generators().len() as int,
                            *i as int,
                        ));
                        assert(g.variants@[k].valid(types.generators().len() as int, *i as int));
                        if g.variants@[k].kind !is Empty {
                            types.lemma_fields_valid(Shape::Variant(*i, k as usize));
                            lemma_fields_rank(
                                g.variants@[k].kind.fields(),
                                g.variants@[k].kind.fields().len() as int,
                                types.generators().len() as int,
                                *i as int,
                                g.variants@[k].kind is Named,
                            );
                        }
                        lemma_fresh_variant_wf(types, *i, k);
                    },
                    None => {},
                }
            },
        },
        _ => {},
    }
}

/// The field that `find_field` finds is a shown one with the identifier looked for, at or
/// after the position where the search starts.
pub proof fn lemma_find_field(fields: Seq<StructField>, ident: Seq<char>, start: int)
    requires
        0 <= start,
    ensures
        find_field(fields, ident, start) matches Some(j) ==> start <= j < fields.len()
            && !fields[j].metadata.hidden && fields[j].ident@ == ident,
    decreases fields.len() - start,
{
    if start < fields.len() && !(!fields[start].metadata.hidden && fields[start].ident@ == ident) {
        lemma_find_field(fields, ident, start + 1);
    }
}

/// The variant that `find_variant` finds is one that is not hidden, with the identifier
/// looked for, at or after the position where the search starts.
pub proof fn lemma_find_variant(types: &Types, generator: usize, ident: Seq<char>, start: int)
    requires
        0 <= start,
    ensures
        find_variant(types, generator, ident, start) matches Some(k) ==> start <= k < variants_of(
            types,
            generator,
        ).len() && !variants_of(types, generator)[k].metadata.hidden && variants_of(
            types,
            generator,
        )[k].ident@ == ident,
    decreases variants_of(types, generator).len() - start,
{
    let variants = variants_of(types, generator);
    if start < variants.len() && !(!variants[start].metadata.hidden && variants[start].ident@
        == ident) {
        lemma_find_variant(types, generator, ident, start + 1);
    }
}

/// A value read as one of a plain type is of that type.
pub proof fn lemma_parse_plain(kind: Plain, text: Seq<char>)
    ensures
        kind.parse(text) matches Ok(v) ==> v.plain() == Some(kind),
{
}

/// An input that is accepted leads to a state that a builder can be in.
pub proof fn lemma_apply_wf(m: BuilderView, types: &Types, input: InputView, path: Seq<Seq<char>>)
    requires
        types.wf(),
        m.wf(types),
    ensures
        m.apply(types, input, path) matches Ok(next) ==> next.wf(types),
    decreases m,
{
    match m {
        BuilderView::Plain { kind, value, prompt } => {
            if let InputView::Text(text) = input {
                lemma_parse_plain(kind, text);
            }
        },
        BuilderView::Bool { value, prompt } => {},
        BuilderView::List { items, element, prompt } => {
            if path.len() == 0 {
                lemma_fresh_wf(types, &element, None, None);
                let after = items.push(fresh(types, &element, None, None));
                assert forall|k: int| 0 <= k < after.len() implies (#[trigger] after[k]).wf(
                    types,
                ) by {
                    if k < items.len() {
                        assert(after[k] == items[k]);
                    }
                }
            } else if path[0] == REMOVE_ID@ {
                if let InputView::Choice(id) = input {
                    if let Some(i) = parse_index(id) {
                        if 0 <= i < items.len() {
                            let after = items.remove(i);
                            assert forall|k: int| 0 <= k < after.len() implies (#[trigger] after[k]).wf(
                                types,
                            ) by {
                                if k < i {
                                    assert(after[k] == items[k]);
                                } else {
                                    assert(after[k] == items[k + 1]);
                                }
                            }
                        }
                    }
                }
            } else {
                if let Some(i) = find_item(items.len(), path[0]) {
                    assert(items[i].wf(types));
                    lemma_apply_wf(items[i], types, input, path.skip(1));
                    if let Ok(item) = items[i].apply(types, input, path.skip(1)) {
                        let after = items.update(i, item);
                        assert forall|k: int| 0 <= k < after.len() implies (#[trigger] after[k]).wf(
                            types,
                        ) by {
                            if k != i {
                                assert(after[k] == items[k]);
                            }
                        }
                    }
                }
            }
        },
        BuilderView::Optional { value, element, prompt } => {
            if path.len() == 0 {
                lemma_fresh_wf(types, &element, None, None);
            } else if let Some(inner) = value {
                lemma_apply_wf(*inner, types, input, path.skip(1));
            }
        },
        BuilderView::Boxed { value } => {
            lemma_apply_wf(*value, types, input, path);
        },
        BuilderView::Struct { shape, fields, prompt } => {
            if types.named(shape) {
                if path.len() > 0 {
                    if let Some((j, b)) = shown_field(types.fields(shape), fields, path[0]) {
                        assert(fields[j] matches Some(x) ==> x.wf(types));
                        lemma_apply_wf(b, types, input, path.skip(1));
                        if let Ok(field) = b.apply(types, input, path.skip(1)) {
                            let after = fields.update(j, Some(field));
                            assert forall|k: int| 0 <= k < after.len() implies (
                            #[trigger] after[k] is None) == types.fields(
                                shape,
                            )[k].metadata.hidden by {
                                assert((fields[k] is None) == types.fields(shape)[k].metadata.hidden);
                            }
                            assert forall|k: int| 0 <= k < after.len() implies (
                            #[trigger] after[k] matches Some(x) ==> x.wf(types)) by {
                                assert(fields[k] matches Some(x) ==> x.wf(types));
                            }
                        }
                    }
                }
            } else {
                if let Some(b) = sole_field(fields) {
                    assert(fields[0] matches Some(x) ==> x.wf(types));
                    lemma_apply_wf(b, types, input, path);
                    if let Ok(field) = b.apply(types, input, path) {
                        let after = fields.update(0, Some(field));
                        assert forall|k: int| 0 <= k < after.len() implies (
                        #[trigger] after[k] is None) == types.fields(shape)[k].metadata.hidden by {
                            assert((fields[k] is None) == types.fields(shape)[k].metadata.hidden);
                        }
                        assert forall|k: int| 0 <= k < after.len() implies (
                        #[trigger] after[k] matches Some(x) ==> x.wf(types)) by {
                            assert(fields[k] matches Some(x) ==> x.wf(types));
                        }
                    }
                }
            }
        },
        BuilderView::Enum { generator, value, prompt } => {
            if path.len() == 0 {
                if let InputView::Choice(id) = input {
                    lemma_find_variant(types, generator, id, 0);
                    if let Some(k) = find_variant(types, generator, id, 0) {
                        lemma_fresh_variant_wf(types, generator, k);
                        let variants = types.generators()[generator as int]->Enum_0.variants;
                        assert(variants@.len() == variants.len());
                    }
                }
            } else if let Some((used, Some(inner))) = value {
                lemma_apply_wf(*inner, types, input, path.skip(1));
            }
        },
    }
}

} // verus!
