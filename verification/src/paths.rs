//! Facts about paths: which paths are valid, and how applying an input changes that.

use crate::menu::{offered, ChoiceView, ChooseErrorView, InputView};
use crate::model::{
    field_choices, field_idents, find_field, find_item, find_variant, fresh, index_texts, lemma_find_field,
    lemma_apply_wf, lemma_find_variant, lemma_fresh_variant_wf, lemma_fresh_wf, shown_field,
    sole_field,
    item_choices, removal_choices, variant_choices, variant_idents, variants_of, BuilderView,
    EDIT_ID, NEW_ID, REMOVE_ID, SET_ID,
};
use crate::schema::{reserved, StructField, Types};
use crate::text::{
    is_digit, lemma_index_first_char, lemma_index_round_trip, lemma_scan_nat_text, nat_text,
    parse_index,
};
use crate::{BACK_ID, FINALIZE_ID};
use vstd::prelude::*;

verus! {

/// The identifiers that the builders keep for their own choices all start with an
/// underscore, and no two of them are the same.
pub proof fn lemma_ids()
    ensures
        NEW_ID@ == seq!['_', '_', 'n', 'e', 'w'],
        REMOVE_ID@ == seq!['_', '_', 'r', 'e', 'm', 'o', 'v', 'e'],
        EDIT_ID@ == seq!['_', '_', 'e', 'd', 'i', 't'],
        SET_ID@ == seq!['_', '_', 's', 'e', 't'],
        BACK_ID@ == seq!['_', '_', 'b', 'a', 'c', 'k'],
        FINALIZE_ID@ == seq!['_', '_', 'f', 'i', 'n', 'a', 'l', 'i', 'z', 'e'],
        "true"@ == seq!['t', 'r', 'u', 'e'],
        "false"@ == seq!['f', 'a', 'l', 's', 'e'],
{
    reveal_strlit("__new");
    reveal_strlit("__remove");
    reveal_strlit("__edit");
    reveal_strlit("__set");
    reveal_strlit("__back");
    reveal_strlit("__finalize");
    reveal_strlit("true");
    reveal_strlit("false");
    assert(NEW_ID@ =~= seq!['_', '_', 'n', 'e', 'w']);
    assert(REMOVE_ID@ =~= seq!['_', '_', 'r', 'e', 'm', 'o', 'v', 'e']);
    assert(EDIT_ID@ =~= seq!['_', '_', 'e', 'd', 'i', 't']);
    assert(SET_ID@ =~= seq!['_', '_', 's', 'e', 't']);
    assert(BACK_ID@ =~= seq!['_', '_', 'b', 'a', 'c', 'k']);
    assert(FINALIZE_ID@ =~= seq!['_', '_', 'f', 'i', 'n', 'a', 'l', 'i', 'z', 'e']);
    assert("true"@ =~= seq!['t', 'r', 'u', 'e']);
    assert("false"@ =~= seq!['f', 'a', 'l', 's', 'e']);
}

/// A text that starts with an underscore denotes no index.
pub proof fn lemma_underscore_no_index(s: Seq<char>)
    requires
        s.len() > 0,
        s[0] == '_',
    ensures
        parse_index(s) is None,
{
    if parse_index(s) is Some {
        lemma_index_first_char(s);
    }
}

/// The decimal notation of an index starts with a digit, and denotes that index.
pub proof fn lemma_index_text(i: nat)
    requires
        i <= usize::MAX,
    ensures
        nat_text(i).len() > 0,
        is_digit(nat_text(i)[0]),
        parse_index(nat_text(i)) == Some(i as int),
        nat_text(i) != NEW_ID@,
        nat_text(i) != REMOVE_ID@,
{
    lemma_index_round_trip(i);
    lemma_scan_nat_text(i, usize::MAX as int);
    crate::text::lemma_nat_text_len(i);
    lemma_ids();
}

/// The empty path is valid.
pub proof fn lemma_valid_empty(m: BuilderView, types: &Types)
    requires
        types.wf(),
        m.wf(types),
    ensures
        m.valid_path(types, Seq::empty()),
    decreases m,
{
    match m {
        BuilderView::Boxed { value } => {
            lemma_valid_empty(*value, types);
        },
        BuilderView::Struct { shape, fields, prompt } => {
            if !types.named(shape) {
                types.lemma_fields_valid(shape);
                assert(fields[0] is None == types.fields(shape)[0].metadata.hidden);
                assert(fields[0] matches Some(b) ==> b.wf(types));
                assert(types.fields(shape)[0].valid(
                    types.generators().len() as int,
                    Types::position(shape),
                    types.eager(shape),
                    types.named(shape),
                ));
                lemma_valid_empty(fields[0]->Some_0, types);
            }
        },
        _ => {},
    }
}

/// An input can be applied at every valid path.
pub proof fn lemma_valid_accepts(m: BuilderView, types: &Types, path: Seq<Seq<char>>)
    requires
        m.valid_path(types, path),
    ensures
        m.accepts_path(types, path),
    decreases m,
{
    match m {
        BuilderView::List { items, element, prompt } => {
            if path.len() > 0 && path[0] != REMOVE_ID@ {
                let i = find_item(items.len(), path[0])->Some_0;
                lemma_valid_accepts(items[i], types, path.skip(1));
            }
        },
        BuilderView::Optional { value, element, prompt } => {
            if path.len() > 0 {
                lemma_valid_accepts(*value->Some_0, types, path.skip(1));
            }
        },
        BuilderView::Boxed { value } => {
            lemma_valid_accepts(*value, types, path);
        },
        BuilderView::Struct { shape, fields, prompt } => {
            if types.named(shape) {
                if path.len() > 0 {
                    let (j, b) = shown_field(types.fields(shape), fields, path[0])->Some_0;
                    lemma_valid_accepts(b, types, path.skip(1));
                }
            } else {
                lemma_valid_accepts(sole_field(fields)->Some_0, types, path);
            }
        },
        BuilderView::Enum { generator, value, prompt } => {
            if path.len() > 0 {
                if let Some((used, Some(inner))) = value {
                    lemma_valid_accepts(*inner, types, path.skip(1));
                }
            }
        },
        _ => {},
    }
}

/// A valid path stays valid when its last segment is taken off.
pub proof fn lemma_valid_prefix(m: BuilderView, types: &Types, path: Seq<Seq<char>>)
    requires
        types.wf(),
        m.wf(types),
        m.valid_path(types, path),
        path.len() > 0,
    ensures
        m.valid_path(types, path.drop_last()),
    decreases m,
{
    let shorter = path.drop_last();
    if path.len() > 1 {
        assert(shorter[0] == path[0]);
        assert(shorter.skip(1) =~= path.skip(1).drop_last());
    } else {
        assert(shorter =~= Seq::empty());
    }
    match m {
        BuilderView::Plain { .. } => {},
        BuilderView::Bool { .. } => {},
        BuilderView::List { items, element, prompt } => {
            if path.len() > 1 && path[0] != REMOVE_ID@ {
                let i = find_item(items.len(), path[0])->Some_0;
                assert(items[i].wf(types));
                lemma_valid_prefix(items[i], types, path.skip(1));
            }
        },
        BuilderView::Optional { value, element, prompt } => {
            if path.len() > 1 {
                lemma_valid_prefix(*value->Some_0, types, path.skip(1));
            }
        },
        BuilderView::Boxed { value } => {
            lemma_valid_prefix(*value, types, path);
        },
        BuilderView::Struct { shape, fields, prompt } => {
            if types.named(shape) {
                if path.len() > 1 {
                    let (j, b) = shown_field(types.fields(shape), fields, path[0])->Some_0;
                    assert(fields[j] matches Some(x) ==> x.wf(types));
                    lemma_valid_prefix(b, types, path.skip(1));
                }
            } else {
                assert(fields[0] matches Some(x) ==> x.wf(types));
                lemma_valid_prefix(sole_field(fields)->Some_0, types, path);
            }
        },
        BuilderView::Enum { generator, value, prompt } => {
            if path.len() > 1 {
                if let Some((used, Some(inner))) = value {
                    lemma_valid_prefix(*inner, types, path.skip(1));
                }
            }
        },
    }
}

/// An input that is accepted at a valid path leaves the path valid.
pub proof fn lemma_apply_keeps_valid(
    m: BuilderView,
    types: &Types,
    input: InputView,
    path: Seq<Seq<char>>,
)
    requires
        types.wf(),
        m.wf(types),
        m.valid_path(types, path),
        m.apply(types, input, path) is Ok,
    ensures
        m.apply(types, input, path)->Ok_0.valid_path(types, path),
    decreases m,
{
    let next = m.apply(types, input, path)->Ok_0;
    lemma_apply_wf(m, types, input, path);
    if path.len() == 0 {
        lemma_valid_empty(next, types);
        assert(path =~= Seq::empty());
    } else {
        match m {
            BuilderView::Plain { .. } => {},
            BuilderView::Bool { .. } => {},
            BuilderView::List { items, element, prompt } => {
                if path[0] != REMOVE_ID@ {
                    let i = find_item(items.len(), path[0])->Some_0;
                    assert(items[i].wf(types));
                    lemma_apply_keeps_valid(items[i], types, input, path.skip(1));
                }
            },
            BuilderView::Optional { value, element, prompt } => {
                lemma_apply_keeps_valid(*value->Some_0, types, input, path.skip(1));
            },
            BuilderView::Boxed { value } => {
                lemma_apply_keeps_valid(*value, types, input, path);
            },
            BuilderView::Struct { shape, fields, prompt } => {
                if types.named(shape) {
                    let (j, b) = shown_field(types.fields(shape), fields, path[0])->Some_0;
                    assert(fields[j] matches Some(x) ==> x.wf(types));
                    lemma_apply_keeps_valid(b, types, input, path.skip(1));
                } else {
                    assert(fields[0] matches Some(x) ==> x.wf(types));
                    lemma_apply_keeps_valid(sole_field(fields)->Some_0, types, input, path);
                }
            },
            BuilderView::Enum { generator, value, prompt } => {
                if let Some((used, Some(inner))) = value {
                    lemma_apply_keeps_valid(*inner, types, input, path.skip(1));
                }
            },
        }
    }
}

/// An identifier among those of the first `n` variants that can be entered is the one of
/// such a variant.
pub proof fn lemma_variant_idents(types: &Types, generator: usize, n: int, id: Seq<char>)
    requires
        variant_idents(types, generator, n).contains(id),
    ensures
        exists|k: int|
            0 <= k < n && k < variants_of(types, generator).len() && !(#[trigger] variants_of(
                types,
                generator,
            )[k]).metadata.hidden && variants_of(types, generator)[k].kind !is Empty && variants_of(
                types,
                generator,
            )[k].ident@ == id,
    decreases n,
{
    let variants = variants_of(types, generator);
    if n <= 0 || n > variants.len() {
        assert(variant_idents(types, generator, n) =~= Seq::empty());
    } else if variants[n - 1].metadata.hidden || variants[n - 1].kind is Empty {
        lemma_variant_idents(types, generator, n - 1, id);
    } else {
        let before = variant_idents(types, generator, n - 1);
        let all = variant_idents(types, generator, n);
        let i = choose|i: int| 0 <= i < all.len() && all[i] == id;
        if i < before.len() {
            assert(before[i] == id);
            lemma_variant_idents(types, generator, n - 1, id);
        } else {
            assert(variants[n - 1].ident@ == id);
        }
    }
}

/// When the choice of a segment by which the path can be extended is accepted, the path
/// extended by that segment is valid.
pub proof fn lemma_descend_valid(
    m: BuilderView,
    types: &Types,
    id: Seq<char>,
    path: Seq<Seq<char>>,
)
    requires
        types.wf(),
        m.wf(types),
        m.valid_path(types, path),
        m.subfields(types, path).contains(id),
        m.apply(types, InputView::Choice(id), path) is Ok,
    ensures
        m.apply(types, InputView::Choice(id), path)->Ok_0.valid_path(types, path.push(id)),
    decreases m,
{
    let input = InputView::Choice(id);
    let next = m.apply(types, input, path)->Ok_0;
    let longer = path.push(id);
    lemma_apply_wf(m, types, input, path);
    lemma_ids();
    if path.len() > 0 {
        assert(longer[0] == path[0]);
        assert(longer.skip(1) =~= path.skip(1).push(id));
    } else {
        assert(longer.skip(1) =~= Seq::empty());
        assert(longer[0] == id);
    }
    match m {
        BuilderView::Plain { .. } => {},
        BuilderView::Bool { .. } => {},
        BuilderView::List { items, element, prompt } => {
            if path.len() == 0 {
                if id == NEW_ID@ {
                    lemma_fresh_wf(types, &element, None, None);
                    lemma_valid_empty(fresh(types, &element, None, None), types);
                } else if id != REMOVE_ID@ {
                    let i = parse_index(id)->Some_0;
                    assert(items[i].wf(types));
                    lemma_valid_empty(items[i], types);
                }
            } else if path[0] != REMOVE_ID@ {
                let i = find_item(items.len(), path[0])->Some_0;
                assert(items[i].wf(types));
                lemma_descend_valid(items[i], types, id, path.skip(1));
            }
        },
        BuilderView::Optional { value, element, prompt } => {
            if path.len() == 0 {
                match value {
                    Some(inner) => {
                        assert(seq![EDIT_ID@].contains(id));
                        lemma_valid_empty(*inner, types);
                    },
                    None => {
                        lemma_fresh_wf(types, &element, None, None);
                        lemma_valid_empty(fresh(types, &element, None, None), types);
                    },
                }
            } else {
                lemma_descend_valid(*value->Some_0, types, id, path.skip(1));
            }
        },
        BuilderView::Boxed { value } => {
            lemma_descend_valid(*value, types, id, path);
        },
        BuilderView::Struct { shape, fields, prompt } => {
            if types.named(shape) {
                if path.len() == 0 {
                    lemma_find_field(types.fields(shape), id, 0);
                    let j = find_field(types.fields(shape), id, 0)->Some_0;
                    assert(fields[j] is None == types.fields(shape)[j].metadata.hidden);
                    assert(fields[j] matches Some(x) ==> x.wf(types));
                    lemma_valid_empty(fields[j]->Some_0, types);
                } else {
                    let (j, b) = shown_field(types.fields(shape), fields, path[0])->Some_0;
                    assert(fields[j] matches Some(x) ==> x.wf(types));
                    lemma_descend_valid(b, types, id, path.skip(1));
                }
            } else {
                assert(fields[0] matches Some(x) ==> x.wf(types));
                lemma_descend_valid(sole_field(fields)->Some_0, types, id, path);
            }
        },
        BuilderView::Enum { generator, value, prompt } => {
            if path.len() == 0 {
                let variants = variants_of(types, generator);
                lemma_find_variant(types, generator, id, 0);
                let k = find_variant(types, generator, id, 0)->Some_0;
                lemma_variant_idents(types, generator, variants.len() as int, id);
                let other = choose|o: int|
                    0 <= o < variants.len() && !(#[trigger] variants[o]).metadata.hidden
                        && variants[o].kind !is Empty && variants[o].ident@ == id;
                assert(types.generators()[generator as int].valid(
                    types.generators().len() as int,
                    generator as int,
                ));
                assert(other == k) by {
                    if other < k {
                        assert(variants[other].ident@ != variants[k].ident@);
                    } else if k < other {
                        assert(variants[k].ident@ != variants[other].ident@);
                    }
                }
                lemma_fresh_variant_wf(types, generator, k);
                let exec_variants = types.generators()[generator as int]->Enum_0.variants;
                assert(exec_variants@.len() == exec_variants.len());
                if let BuilderView::Enum { value: Some((used, Some(inner))), .. } = next {
                    lemma_valid_empty(*inner, types);
                }
            } else if let Some((used, Some(inner))) = value {
                lemma_descend_valid(*inner, types, id, path.skip(1));
            }
        },
    }
}

/// A choice is among a list with one more choice if it is that choice or among the list.
pub proof fn lemma_offered_push(choices: Seq<ChoiceView>, choice: ChoiceView, id: Seq<char>)
    ensures
        offered(choices.push(choice), id) == (offered(choices, id) || choice.choice_id == id),
{
    let longer = choices.push(choice);
    if offered(longer, id) {
        let i = choose|i: int| 0 <= i < longer.len() && (#[trigger] longer[i]).choice_id == id;
        if i < choices.len() {
            assert(choices[i].choice_id == id);
        }
    }
    if offered(choices, id) {
        let i = choose|i: int| 0 <= i < choices.len() && (#[trigger] choices[i]).choice_id == id;
        assert(longer[i].choice_id == id);
    }
    if choice.choice_id == id {
        assert(longer[choices.len() as int].choice_id == id);
    }
}

/// No choice that leads to an item of a list starts with an underscore.
pub proof fn lemma_item_choices(types: &Types, items: Seq<BuilderView>, n: int, id: Seq<char>)
    requires
        id.len() > 0,
        id[0] == '_',
    ensures
        !offered(item_choices(types, items, n), id),
    decreases n,
{
    if n > 0 && n <= items.len() {
        lemma_item_choices(types, items, n - 1, id);
        let last = item_choices(types, items, n)[n - 1];
        lemma_offered_push(item_choices(types, items, n - 1), item_choices(types, items, n).last(), id);
        crate::text::lemma_nat_text_len((n - 1) as nat);
        lemma_scan_nat_text((n - 1) as nat, n - 1);
    }
}

/// No choice that removes an item of a list starts with an underscore.
pub proof fn lemma_removal_choices(n: int, id: Seq<char>)
    requires
        id.len() > 0,
        id[0] == '_',
    ensures
        !offered(removal_choices(n), id),
    decreases n,
{
    if n > 0 {
        lemma_removal_choices(n - 1, id);
        lemma_offered_push(removal_choices(n - 1), removal_choices(n).last(), id);
        crate::text::lemma_nat_text_len((n - 1) as nat);
        lemma_scan_nat_text((n - 1) as nat, n - 1);
    }
}

/// No choice that leads to a field is one that the builder keeps for itself.
pub proof fn lemma_field_choices(
    types: &Types,
    described: Seq<StructField>,
    fields: Seq<Option<BuilderView>>,
    n: int,
    id: Seq<char>,
)
    requires
        reserved(id),
        forall|j: int| 0 <= j < described.len() ==> !reserved((#[trigger] described[j]).ident@),
        fields.len() == described.len(),
    ensures
        !offered(field_choices(types, described, fields, n), id),
    decreases n,
{
    if n > 0 && n <= fields.len() {
        lemma_field_choices(types, described, fields, n - 1, id);
        if fields[n - 1] is Some {
            lemma_offered_push(
                field_choices(types, described, fields, n - 1),
                field_choices(types, described, fields, n).last(),
                id,
            );
            assert(!reserved(described[n - 1].ident@));
        }
    }
}

/// No choice that selects a variant is one that the builder keeps for itself.
pub proof fn lemma_variant_choices(
    types: &Types,
    generator: usize,
    value: Option<(usize, Option<Box<BuilderView>>)>,
    n: int,
    id: Seq<char>,
)
    requires
        reserved(id),
        forall|k: int|
            0 <= k < variants_of(types, generator).len() ==> !reserved(
                (#[trigger] variants_of(types, generator)[k]).ident@,
            ),
    ensures
        !offered(variant_choices(types, generator, value, n), id),
    decreases n,
{
    let variants = variants_of(types, generator);
    if n > 0 && n <= variants.len() {
        lemma_variant_choices(types, generator, value, n - 1, id);
        if !variants[n - 1].metadata.hidden {
            lemma_offered_push(
                variant_choices(types, generator, value, n - 1),
                variant_choices(types, generator, value, n).last(),
                id,
            );
            assert(!reserved(variants[n - 1].ident@));
        }
    }
}

/// No shown field is called like a choice that the builder keeps for itself.
pub proof fn lemma_find_reserved_field(fields: Seq<StructField>, id: Seq<char>, start: int)
    requires
        reserved(id),
        forall|j: int| 0 <= j < fields.len() ==> !reserved((#[trigger] fields[j]).ident@),
        0 <= start,
    ensures
        find_field(fields, id, start) is None,
    decreases fields.len() - start,
{
    if start < fields.len() {
        assert(!reserved(fields[start].ident@));
        lemma_find_reserved_field(fields, id, start + 1);
    }
}

/// No variant is called like a choice that the builder keeps for itself.
pub proof fn lemma_find_reserved_variant(
    types: &Types,
    generator: usize,
    id: Seq<char>,
    start: int,
)
    requires
        reserved(id),
        forall|k: int|
            0 <= k < variants_of(types, generator).len() ==> !reserved(
                (#[trigger] variants_of(types, generator)[k]).ident@,
            ),
        0 <= start,
    ensures
        find_variant(types, generator, id, start) is None,
    decreases variants_of(types, generator).len() - start,
{
    let variants = variants_of(types, generator);
    if start < variants.len() {
        assert(!reserved(variants[start].ident@));
        lemma_find_reserved_variant(types, generator, id, start + 1);
    }
}

/// The named fields of a shape, and the variants of an enum, are not called like a choice
/// that the builder keeps for itself.
pub proof fn lemma_idents_not_reserved(types: &Types)
    requires
        types.wf(),
    ensures
        forall|shape: crate::schema::Shape, j: int|
            #![trigger types.fields(shape)[j]]
            types.has(shape) && types.named(shape) && 0 <= j < types.fields(shape).len()
                ==> !reserved(types.fields(shape)[j].ident@),
        forall|generator: usize, k: int|
            #![trigger variants_of(types, generator)[k]]
            types.has_enum(generator) && 0 <= k < variants_of(types, generator).len()
                ==> !reserved(variants_of(types, generator)[k].ident@),
{
    assert forall|shape: crate::schema::Shape, j: int|
        #![trigger types.fields(shape)[j]]
        types.has(shape) && types.named(shape) && 0 <= j < types.fields(shape).len()
            implies !reserved(types.fields(shape)[j].ident@) by {
        types.lemma_fields_valid(shape);
        assert(types.fields(shape)[j].valid(
            types.generators().len() as int,
            Types::position(shape),
            types.eager(shape),
            types.named(shape),
        ));
    }
    assert forall|generator: usize, k: int|
        #![trigger variants_of(types, generator)[k]]
        types.has_enum(generator) && 0 <= k < variants_of(types, generator).len()
            implies !reserved(variants_of(types, generator)[k].ident@) by {
        assert(types.generators()[generator as int].valid(
            types.generators().len() as int,
            generator as int,
        ));
        assert(variants_of(types, generator)[k].valid(
            types.generators().len() as int,
            generator as int,
        ));
    }
}

/// At no valid path is a choice offered that the builder keeps for itself.
pub proof fn lemma_reserved_not_offered(
    m: BuilderView,
    types: &Types,
    path: Seq<Seq<char>>,
    id: Seq<char>,
)
    requires
        types.wf(),
        m.wf(types),
        m.valid_path(types, path),
        reserved(id),
    ensures
        !offered(m.options(types, path).choices, id),
    decreases m,
{
    lemma_ids();
    lemma_idents_not_reserved(types);
    let choices = m.options(types, path).choices;
    match m {
        BuilderView::Plain { .. } => {},
        BuilderView::Bool { .. } => {},
        BuilderView::List { items, element, prompt } => {
            if path.len() == 0 {
                if items.len() > 0 {
                    let rest = item_choices(types, items, items.len() as int);
                    lemma_item_choices(types, items, items.len() as int, id);
                    if offered(choices, id) {
                        let i = choose|i: int|
                            0 <= i < choices.len() && (#[trigger] choices[i]).choice_id == id;
                        if i >= 2 {
                            assert(rest[i - 2].choice_id == id);
                        }
                    }
                }
            } else if path[0] == REMOVE_ID@ {
                lemma_removal_choices(items.len() as int, id);
            } else {
                let i = find_item(items.len(), path[0])->Some_0;
                assert(items[i].wf(types));
                lemma_reserved_not_offered(items[i], types, path.skip(1), id);
            }
        },
        BuilderView::Optional { value, element, prompt } => {
            if path.len() > 0 {
                lemma_reserved_not_offered(*value->Some_0, types, path.skip(1), id);
            }
        },
        BuilderView::Boxed { value } => {
            lemma_reserved_not_offered(*value, types, path, id);
        },
        BuilderView::Struct { shape, fields, prompt } => {
            if types.named(shape) {
                if path.len() == 0 {
                    assert forall|j: int| 0 <= j < types.fields(shape).len() implies !reserved(
                        (#[trigger] types.fields(shape)[j]).ident@,
                    ) by {}
                    lemma_field_choices(types, types.fields(shape), fields, fields.len() as int, id);
                } else {
                    let (j, b) = shown_field(types.fields(shape), fields, path[0])->Some_0;
                    assert(fields[j] matches Some(x) ==> x.wf(types));
                    lemma_reserved_not_offered(b, types, path.skip(1), id);
                }
            } else {
                assert(fields[0] matches Some(x) ==> x.wf(types));
                lemma_reserved_not_offered(sole_field(fields)->Some_0, types, path, id);
            }
        },
        BuilderView::Enum { generator, value, prompt } => {
            if path.len() == 0 {
                assert forall|k: int| 0 <= k < variants_of(types, generator).len() implies !reserved(
                    (#[trigger] variants_of(types, generator)[k]).ident@,
                ) by {}
                lemma_variant_choices(
                    types,
                    generator,
                    value,
                    variants_of(types, generator).len() as int,
                    id,
                );
            } else if let Some((used, Some(inner))) = value {
                lemma_reserved_not_offered(*inner, types, path.skip(1), id);
            }
        },
    }
}

/// At every valid path the choice of an identifier that the builder keeps for itself is
/// refused as unexpected.
pub proof fn lemma_reserved_refused(
    m: BuilderView,
    types: &Types,
    path: Seq<Seq<char>>,
    id: Seq<char>,
)
    requires
        types.wf(),
        m.wf(types),
        m.valid_path(types, path),
        reserved(id),
    ensures
        m.apply(types, InputView::Choice(id), path) == Err::<BuilderView, ChooseErrorView>(
            ChooseErrorView::UnexpectedChoice,
        ),
    decreases m,
{
    lemma_ids();
    lemma_idents_not_reserved(types);
    lemma_underscore_no_index(id);
    let input = InputView::Choice(id);
    match m {
        BuilderView::Plain { .. } => {},
        BuilderView::Bool { .. } => {},
        BuilderView::List { items, element, prompt } => {
            if path.len() > 0 && path[0] != REMOVE_ID@ {
                let i = find_item(items.len(), path[0])->Some_0;
                assert(items[i].wf(types));
                lemma_reserved_refused(items[i], types, path.skip(1), id);
            }
        },
        BuilderView::Optional { value, element, prompt } => {
            if path.len() > 0 {
                lemma_reserved_refused(*value->Some_0, types, path.skip(1), id);
            }
        },
        BuilderView::Boxed { value } => {
            lemma_reserved_refused(*value, types, path, id);
        },
        BuilderView::Struct { shape, fields, prompt } => {
            if types.named(shape) {
                if path.len() == 0 {
                    assert forall|j: int| 0 <= j < types.fields(shape).len() implies !reserved(
                        (#[trigger] types.fields(shape)[j]).ident@,
                    ) by {}
                    lemma_find_reserved_field(types.fields(shape), id, 0);
                } else {
                    let (j, b) = shown_field(types.fields(shape), fields, path[0])->Some_0;
                    assert(fields[j] matches Some(x) ==> x.wf(types));
                    lemma_reserved_refused(b, types, path.skip(1), id);
                }
            } else {
                assert(fields[0] matches Some(x) ==> x.wf(types));
                lemma_reserved_refused(sole_field(fields)->Some_0, types, path, id);
            }
        },
        BuilderView::Enum { generator, value, prompt } => {
            if path.len() == 0 {
                assert forall|k: int| 0 <= k < variants_of(types, generator).len() implies !reserved(
                    (#[trigger] variants_of(types, generator)[k]).ident@,
                ) by {}
                lemma_find_reserved_variant(types, generator, id, 0);
            } else if let Some((used, Some(inner))) = value {
                lemma_reserved_refused(*inner, types, path.skip(1), id);
            }
        },
    }
}

/// A segment among the identifiers of the first `n` fields is the identifier of a shown
/// field.
pub proof fn lemma_field_idents(described: Seq<StructField>, n: int, id: Seq<char>)
    requires
        field_idents(described, n).contains(id),
    ensures
        exists|j: int|
            0 <= j < n && j < described.len() && !(#[trigger] described[j]).metadata.hidden
                && described[j].ident@ == id,
    decreases n,
{
    if n <= 0 || n > described.len() {
        assert(field_idents(described, n) =~= Seq::empty());
    } else if described[n - 1].metadata.hidden {
        lemma_field_idents(described, n - 1, id);
    } else {
        let before = field_idents(described, n - 1);
        let all = field_idents(described, n);
        let i = choose|i: int| 0 <= i < all.len() && all[i] == id;
        if i < before.len() {
            assert(before[i] == id);
            lemma_field_idents(described, n - 1, id);
        } else {
            assert(described[n - 1].ident@ == id);
        }
    }
}

/// A segment among the notations of the first `n` indices is the notation of one of them.
pub proof fn lemma_index_texts(n: int, id: Seq<char>)
    requires
        index_texts(n).contains(id),
    ensures
        exists|i: int| 0 <= i < n && id == #[trigger] nat_text(i as nat),
    decreases n,
{
    if n <= 0 {
        assert(index_texts(n) =~= Seq::empty());
    } else {
        let before = index_texts(n - 1);
        let all = index_texts(n);
        let i = choose|i: int| 0 <= i < all.len() && all[i] == id;
        if i < before.len() {
            assert(before[i] == id);
            lemma_index_texts(n - 1, id);
        } else {
            assert(id == nat_text((n - 1) as nat));
        }
    }
}

/// No segment by which a valid path can be extended is one that the builder keeps for
/// itself.
pub proof fn lemma_subfields_not_reserved(
    m: BuilderView,
    types: &Types,
    path: Seq<Seq<char>>,
    id: Seq<char>,
)
    requires
        types.wf(),
        m.wf(types),
        m.valid_path(types, path),
        m.subfields(types, path).contains(id),
    ensures
        !reserved(id),
    decreases m,
{
    lemma_ids();
    lemma_idents_not_reserved(types);
    match m {
        BuilderView::Plain { .. } => {},
        BuilderView::Bool { .. } => {},
        BuilderView::List { items, element, prompt } => {
            if path.len() == 0 {
                if items.len() > 0 {
                    let all = m.subfields(types, path);
                    let i = choose|i: int| 0 <= i < all.len() && all[i] == id;
                    if i >= 2 {
                        assert(index_texts(items.len() as int)[i - 2] == id);
                        lemma_index_texts(items.len() as int, id);
                        let k = choose|k: int|
                            0 <= k < items.len() && id == #[trigger] nat_text(k as nat);
                        crate::text::lemma_nat_text_len(k as nat);
                        lemma_scan_nat_text(k as nat, k);
                    }
                }
            } else if path[0] != REMOVE_ID@ {
                let i = find_item(items.len(), path[0])->Some_0;
                assert(items[i].wf(types));
                lemma_subfields_not_reserved(items[i], types, path.skip(1), id);
            }
        },
        BuilderView::Optional { value, element, prompt } => {
            if path.len() > 0 {
                lemma_subfields_not_reserved(*value->Some_0, types, path.skip(1), id);
            }
        },
        BuilderView::Boxed { value } => {
            lemma_subfields_not_reserved(*value, types, path, id);
        },
        BuilderView::Struct { shape, fields, prompt } => {
            if types.named(shape) {
                if path.len() == 0 {
                    lemma_field_idents(types.fields(shape), fields.len() as int, id);
                } else {
                    let (j, b) = shown_field(types.fields(shape), fields, path[0])->Some_0;
                    assert(fields[j] matches Some(x) ==> x.wf(types));
                    lemma_subfields_not_reserved(b, types, path.skip(1), id);
                }
            } else {
                assert(fields[0] matches Some(x) ==> x.wf(types));
                lemma_subfields_not_reserved(sole_field(fields)->Some_0, types, path, id);
            }
        },
        BuilderView::Enum { generator, value, prompt } => {
            if path.len() == 0 {
                lemma_variant_idents(
                    types,
                    generator,
                    variants_of(types, generator).len() as int,
                    id,
                );
            } else if let Some((used, Some(inner))) = value {
                lemma_subfields_not_reserved(*inner, types, path.skip(1), id);
            }
        },
    }
}

/// Whether the choice of a segment at a path appends an item to a list: the path leads to a
/// list and the segment is `__new`.
pub open spec fn appends(m: BuilderView, types: &Types, path: Seq<Seq<char>>, id: Seq<char>) -> bool
    decreases m,
{
    match m {
        BuilderView::Plain { .. } => false,
        BuilderView::Bool { .. } => false,
        BuilderView::List { items, element, prompt } => if path.len() == 0 {
            id == NEW_ID@
        } else if path[0] == REMOVE_ID@ {
            false
        } else {
            match find_item(items.len(), path[0]) {
                Some(i) => appends(items[i], types, path.skip(1), id),
                None => false,
            }
        },
        BuilderView::Optional { value, element, prompt } => match value {
            Some(inner) => path.len() > 0 && appends(*inner, types, path.skip(1), id),
            None => false,
        },
        BuilderView::Boxed { value } => appends(*value, types, path, id),
        BuilderView::Struct { shape, fields, prompt } => if types.named(shape) {
            path.len() > 0 && match shown_field(types.fields(shape), fields, path[0]) {
                Some((j, b)) => appends(b, types, path.skip(1), id),
                None => false,
            }
        } else {
            match sole_field(fields) {
                Some(b) => appends(b, types, path, id),
                None => false,
            }
        },
        BuilderView::Enum { generator, value, prompt } => match value {
            Some((used, Some(inner))) => path.len() > 0 && appends(*inner, types, path.skip(1), id),
            _ => false,
        },
    }
}

/// The choice of a segment that leads to a builder that is already there changes nothing,
/// unless it appends an item to a list.
pub proof fn lemma_reenter(m: BuilderView, types: &Types, path: Seq<Seq<char>>, id: Seq<char>)
    requires
        types.wf(),
        m.wf(types),
        m.valid_path(types, path),
        m.subfields(types, path).contains(id),
        m.valid_path(types, path.push(id)),
        !appends(m, types, path, id),
    ensures
        m.apply(types, InputView::Choice(id), path) == Ok::<BuilderView, ChooseErrorView>(m),
    decreases m,
{
    let input = InputView::Choice(id);
    let longer = path.push(id);
    lemma_ids();
    if path.len() > 0 {
        assert(longer[0] == path[0]);
        assert(longer.skip(1) =~= path.skip(1).push(id));
    } else {
        assert(longer.skip(1) =~= Seq::empty());
        assert(longer[0] == id);
    }
    match m {
        BuilderView::Plain { .. } => {},
        BuilderView::Bool { .. } => {},
        BuilderView::List { items, element, prompt } => {
            if path.len() == 0 {
                if items.len() == 0 {
                    assert(seq![NEW_ID@].contains(id));
                }
            } else if path[0] != REMOVE_ID@ {
                let i = find_item(items.len(), path[0])->Some_0;
                assert(items[i].wf(types));
                lemma_reenter(items[i], types, path.skip(1), id);
                assert(items.update(i, items[i]) =~= items);
            }
        },
        BuilderView::Optional { value, element, prompt } => {
            if path.len() == 0 {
                match value {
                    Some(inner) => {
                        assert(seq![EDIT_ID@].contains(id));
                    },
                    None => {},
                }
            } else {
                lemma_reenter(*value->Some_0, types, path.skip(1), id);
            }
        },
        BuilderView::Boxed { value } => {
            lemma_reenter(*value, types, path, id);
        },
        BuilderView::Struct { shape, fields, prompt } => {
            if types.named(shape) {
                if path.len() > 0 {
                    let (j, b) = shown_field(types.fields(shape), fields, path[0])->Some_0;
                    assert(fields[j] matches Some(x) ==> x.wf(types));
                    lemma_reenter(b, types, path.skip(1), id);
                    assert(fields.update(j, Some(b)) =~= fields);
                }
            } else {
                assert(fields[0] matches Some(x) ==> x.wf(types));
                lemma_reenter(sole_field(fields)->Some_0, types, path, id);
                assert(fields.update(0, fields[0]) =~= fields);
            }
        },
        BuilderView::Enum { generator, value, prompt } => {
            if path.len() > 0 {
                if let Some((used, Some(inner))) = value {
                    lemma_reenter(*inner, types, path.skip(1), id);
                }
            }
        },
    }
}

/// Whether no two of the choices have the same identifier.
pub open spec fn distinct_ids(choices: Seq<ChoiceView>) -> bool {
    forall|a: int, b: int|
        #![trigger choices[a], choices[b]]
        0 <= a < b < choices.len() ==> choices[a].choice_id != choices[b].choice_id
}

/// A list of choices with distinct identifiers stays one when a choice is added whose
/// identifier is not among them.
pub proof fn lemma_distinct_push(choices: Seq<ChoiceView>, choice: ChoiceView)
    requires
        distinct_ids(choices),
        !offered(choices, choice.choice_id),
    ensures
        distinct_ids(choices.push(choice)),
{
    let longer = choices.push(choice);
    assert forall|a: int, b: int|
        #![trigger longer[a], longer[b]]
        0 <= a < b < longer.len() implies longer[a].choice_id != longer[b].choice_id by {
        if b < choices.len() {
            assert(choices[a].choice_id != choices[b].choice_id);
        } else {
            assert(choices[a].choice_id == longer[a].choice_id);
        }
    }
}

/// The choices that lead to the items of a list are those of the indices, in order.
pub proof fn lemma_item_choice_ids(types: &Types, items: Seq<BuilderView>, n: int)
    requires
        0 <= n <= items.len(),
    ensures
        item_choices(types, items, n).len() == n,
        forall|i: int|
            0 <= i < n ==> (#[trigger] item_choices(types, items, n)[i]).choice_id == nat_text(
                i as nat,
            ),
    decreases n,
{
    if n > 0 {
        lemma_item_choice_ids(types, items, n - 1);
    }
}

/// The choices that remove the items of a list are those of the indices, in order.
pub proof fn lemma_removal_choice_ids(n: int)
    requires
        0 <= n,
    ensures
        removal_choices(n).len() == n,
        forall|i: int|
            0 <= i < n ==> (#[trigger] removal_choices(n)[i]).choice_id == nat_text(i as nat),
    decreases n,
{
    if n > 0 {
        lemma_removal_choice_ids(n - 1);
    }
}

/// The choices that lead to the shown ones of the first `n` fields are those of their
/// identifiers, and no two are the same.
pub proof fn lemma_field_choice_ids(
    types: &Types,
    described: Seq<StructField>,
    fields: Seq<Option<BuilderView>>,
    n: int,
)
    requires
        crate::schema::fields_distinct(described),
        fields.len() == described.len(),
        forall|j: int|
            0 <= j < fields.len() ==> (#[trigger] fields[j] is None)
                == described[j].metadata.hidden,
        0 <= n <= fields.len(),
    ensures
        distinct_ids(field_choices(types, described, fields, n)),
        forall|id: Seq<char>|
            offered(field_choices(types, described, fields, n), id) ==> exists|j: int|
                0 <= j < n && !(#[trigger] described[j]).metadata.hidden && described[j].ident@
                    == id,
    decreases n,
{
    if n > 0 {
        lemma_field_choice_ids(types, described, fields, n - 1);
        let before = field_choices(types, described, fields, n - 1);
        let all = field_choices(types, described, fields, n);
        assert((fields[n - 1] is None) == described[n - 1].metadata.hidden);
        if fields[n - 1] is Some {
            let added = all.last();
            if offered(before, added.choice_id) {
                let j = choose|j: int|
                    0 <= j < n - 1 && !(#[trigger] described[j]).metadata.hidden
                        && described[j].ident@ == added.choice_id;
                assert(described[j].ident@ != described[n - 1].ident@);
            }
            lemma_distinct_push(before, added);
            assert forall|id: Seq<char>| offered(all, id) implies exists|j: int|
                0 <= j < n && !(#[trigger] described[j]).metadata.hidden && described[j].ident@
                    == id by {
                lemma_offered_push(before, added, id);
                if offered(before, id) {
                    let j = choose|j: int|
                        0 <= j < n - 1 && !(#[trigger] described[j]).metadata.hidden
                            && described[j].ident@ == id;
                    assert(!described[j].metadata.hidden && described[j].ident@ == id);
                } else {
                    assert(!described[n - 1].metadata.hidden && described[n - 1].ident@ == id);
                }
            }
        } else {
            assert forall|id: Seq<char>| offered(all, id) implies exists|j: int|
                0 <= j < n && !(#[trigger] described[j]).metadata.hidden && described[j].ident@
                    == id by {
                let j = choose|j: int|
                    0 <= j < n - 1 && !(#[trigger] described[j]).metadata.hidden
                        && described[j].ident@ == id;
                assert(!described[j].metadata.hidden && described[j].ident@ == id);
            }
        }
    } else {
        assert(field_choices(types, described, fields, n) =~= Seq::empty());
    }
}

/// The choices that select the ones of the first `n` variants that are not hidden are those
/// of their identifiers, and no two are the same.
pub proof fn lemma_variant_choice_ids(
    types: &Types,
    generator: usize,
    value: Option<(usize, Option<Box<BuilderView>>)>,
    n: int,
)
    requires
        crate::schema::variants_distinct(variants_of(types, generator)),
        0 <= n <= variants_of(types, generator).len(),
    ensures
        distinct_ids(variant_choices(types, generator, value, n)),
        forall|id: Seq<char>|
            offered(variant_choices(types, generator, value, n), id) ==> exists|k: int|
                0 <= k < n && !(#[trigger] variants_of(types, generator)[k]).metadata.hidden
                    && variants_of(types, generator)[k].ident@ == id,
    decreases n,
{
    let variants = variants_of(types, generator);
    if n > 0 {
        lemma_variant_choice_ids(types, generator, value, n - 1);
        let before = variant_choices(types, generator, value, n - 1);
        let all = variant_choices(types, generator, value, n);
        if !variants[n - 1].metadata.hidden {
            let added = all.last();
            if offered(before, added.choice_id) {
                let k = choose|k: int|
                    0 <= k < n - 1 && !(#[trigger] variants[k]).metadata.hidden && variants[k].ident@
                        == added.choice_id;
                assert(variants[k].ident@ != variants[n - 1].ident@);
            }
            lemma_distinct_push(before, added);
            assert forall|id: Seq<char>| offered(all, id) implies exists|k: int|
                0 <= k < n && !(#[trigger] variants[k]).metadata.hidden && variants[k].ident@
                    == id by {
                lemma_offered_push(before, added, id);
                if offered(before, id) {
                    let k = choose|k: int|
                        0 <= k < n - 1 && !(#[trigger] variants[k]).metadata.hidden
                            && variants[k].ident@ == id;
                    assert(!variants[k].metadata.hidden && variants[k].ident@ == id);
                } else {
                    assert(!variants[n - 1].metadata.hidden && variants[n - 1].ident@ == id);
                }
            }
        } else {
            assert forall|id: Seq<char>| offered(all, id) implies exists|k: int|
                0 <= k < n && !(#[trigger] variants[k]).metadata.hidden && variants[k].ident@
                    == id by {
                let k = choose|k: int|
                    0 <= k < n - 1 && !(#[trigger] variants[k]).metadata.hidden
                        && variants[k].ident@ == id;
                assert(!variants[k].metadata.hidden && variants[k].ident@ == id);
            }
        }
    } else {
        assert(variant_choices(types, generator, value, n) =~= Seq::empty());
    }
}

/// At every valid path no two of the choices that are offered have the same identifier.
pub proof fn lemma_options_distinct(m: BuilderView, types: &Types, path: Seq<Seq<char>>)
    requires
        types.wf(),
        m.wf(types),
        m.valid_path(types, path),
    ensures
        distinct_ids(m.options(types, path).choices),
    decreases m,
{
    lemma_ids();
    let choices = m.options(types, path).choices;
    match m {
        BuilderView::Plain { .. } => {},
        BuilderView::Bool { .. } => {},
        BuilderView::List { items, element, prompt } => {
            if path.len() == 0 {
                if items.len() > 0 {
                    let n = items.len() as int;
                    lemma_item_choice_ids(types, items, n);
                    assert forall|a: int, b: int|
                        #![trigger choices[a], choices[b]]
                        0 <= a < b < choices.len() implies choices[a].choice_id
                        != choices[b].choice_id by {
                        if b >= 2 {
                            let rest = item_choices(types, items, n);
                            assert(choices[b] == rest[b - 2]);
                            lemma_scan_nat_text((b - 2) as nat, b - 2);
                            if a >= 2 {
                                assert(choices[a] == rest[a - 2]);
                                if nat_text((a - 2) as nat) == nat_text((b - 2) as nat) {
                                    crate::text::lemma_nat_text_injective(
                                        (a - 2) as nat,
                                        (b - 2) as nat,
                                    );
                                }
                            }
                        }
                    }
                }
            } else if path[0] == REMOVE_ID@ {
                let n = items.len() as int;
                lemma_removal_choice_ids(n);
                assert forall|a: int, b: int|
                    #![trigger choices[a], choices[b]]
                    0 <= a < b < choices.len() implies choices[a].choice_id
                    != choices[b].choice_id by {
                    if nat_text(a as nat) == nat_text(b as nat) {
                        crate::text::lemma_nat_text_injective(a as nat, b as nat);
                    }
                }
            } else {
                let i = find_item(items.len(), path[0])->Some_0;
                assert(items[i].wf(types));
                lemma_options_distinct(items[i], types, path.skip(1));
            }
        },
        BuilderView::Optional { value, element, prompt } => {
            if path.len() > 0 {
                lemma_options_distinct(*value->Some_0, types, path.skip(1));
            }
        },
        BuilderView::Boxed { value } => {
            lemma_options_distinct(*value, types, path);
        },
        BuilderView::Struct { shape, fields, prompt } => {
            if types.named(shape) {
                if path.len() == 0 {
                    types.lemma_fields_valid(shape);
                    lemma_field_choice_ids(types, types.fields(shape), fields, fields.len() as int);
                } else {
                    let (j, b) = shown_field(types.fields(shape), fields, path[0])->Some_0;
                    assert(fields[j] matches Some(x) ==> x.wf(types));
                    lemma_options_distinct(b, types, path.skip(1));
                }
            } else {
                assert(fields[0] matches Some(x) ==> x.wf(types));
                lemma_options_distinct(sole_field(fields)->Some_0, types, path);
            }
        },
        BuilderView::Enum { generator, value, prompt } => {
            if path.len() == 0 {
                assert(types.generators()[generator as int].valid(
                    types.generators().len() as int,
                    generator as int,
                ));
                lemma_variant_choice_ids(
                    types,
                    generator,
                    value,
                    variants_of(types, generator).len() as int,
                );
            } else if let Some((used, Some(inner))) = value {
                lemma_options_distinct(*inner, types, path.skip(1));
            }
        },
    }
}

/// A shown field with an identifier is found under that identifier.
pub proof fn lemma_field_found(fields: Seq<StructField>, id: Seq<char>, start: int, j: int)
    requires
        0 <= start <= j < fields.len(),
        !fields[j].metadata.hidden,
        fields[j].ident@ == id,
    ensures
        find_field(fields, id, start) is Some,
    decreases j - start,
{
    if !(!fields[start].metadata.hidden && fields[start].ident@ == id) {
        lemma_field_found(fields, id, start + 1, j);
    }
}

/// A variant that is not hidden is found under its identifier.
pub proof fn lemma_variant_found(types: &Types, generator: usize, id: Seq<char>, start: int, k: int)
    requires
        0 <= start <= k < variants_of(types, generator).len(),
        !variants_of(types, generator)[k].metadata.hidden,
        variants_of(types, generator)[k].ident@ == id,
    ensures
        find_variant(types, generator, id, start) is Some,
    decreases k - start,
{
    let variants = variants_of(types, generator);
    if !(!variants[start].metadata.hidden && variants[start].ident@ == id) {
        lemma_variant_found(types, generator, id, start + 1, k);
    }
}

/// Every choice that is offered at a valid path is accepted when it is made.
pub proof fn lemma_offered_accepted(
    m: BuilderView,
    types: &Types,
    path: Seq<Seq<char>>,
    id: Seq<char>,
)
    requires
        types.wf(),
        m.wf(types),
        m.countable(),
        m.valid_path(types, path),
        offered(m.options(types, path).choices, id),
    ensures
        m.apply(types, InputView::Choice(id), path) is Ok,
    decreases m,
{
    lemma_ids();
    let choices = m.options(types, path).choices;
    let at = choose|at: int| 0 <= at < choices.len() && (#[trigger] choices[at]).choice_id == id;
    match m {
        BuilderView::Plain { .. } => {},
        BuilderView::Bool { .. } => {},
        BuilderView::List { items, element, prompt } => {
            let n = items.len() as int;
            if path.len() == 0 {
                if items.len() > 0 && at >= 2 {
                    lemma_item_choice_ids(types, items, n);
                    assert(choices[at] == item_choices(types, items, n)[at - 2]);
                    lemma_index_text((at - 2) as nat);
                }
            } else if path[0] == REMOVE_ID@ {
                lemma_removal_choice_ids(n);
                lemma_index_text(at as nat);
            } else {
                let i = find_item(items.len(), path[0])->Some_0;
                assert(items[i].wf(types));
                assert(items[i].countable());
                lemma_offered_accepted(items[i], types, path.skip(1), id);
            }
        },
        BuilderView::Optional { value, element, prompt } => {
            if path.len() > 0 {
                lemma_offered_accepted(*value->Some_0, types, path.skip(1), id);
            }
        },
        BuilderView::Boxed { value } => {
            lemma_offered_accepted(*value, types, path, id);
        },
        BuilderView::Struct { shape, fields, prompt } => {
            if types.named(shape) {
                if path.len() == 0 {
                    types.lemma_fields_valid(shape);
                    lemma_field_choice_ids(types, types.fields(shape), fields, fields.len() as int);
                    let j = choose|j: int|
                        0 <= j < fields.len() && !(#[trigger] types.fields(shape)[j]).metadata.hidden
                            && types.fields(shape)[j].ident@ == id;
                    lemma_field_found(types.fields(shape), id, 0, j);
                } else {
                    let (j, b) = shown_field(types.fields(shape), fields, path[0])->Some_0;
                    assert(fields[j] matches Some(x) ==> x.wf(types));
                    assert(fields[j] matches Some(x) ==> x.countable());
                    lemma_offered_accepted(b, types, path.skip(1), id);
                }
            } else {
                assert(fields[0] matches Some(x) ==> x.wf(types));
                assert(fields[0] matches Some(x) ==> x.countable());
                lemma_offered_accepted(sole_field(fields)->Some_0, types, path, id);
            }
        },
        BuilderView::Enum { generator, value, prompt } => {
            if path.len() == 0 {
                let variants = variants_of(types, generator);
                assert(types.generators()[generator as int].valid(
                    types.generators().len() as int,
                    generator as int,
                ));
                lemma_variant_choice_ids(types, generator, value, variants.len() as int);
                let k = choose|k: int|
                    0 <= k < variants.len() && !(#[trigger] variants[k]).metadata.hidden
                        && variants[k].ident@ == id;
                lemma_variant_found(types, generator, id, 0, k);
            } else if let Some((used, Some(inner))) = value {
                lemma_offered_accepted(*inner, types, path.skip(1), id);
            }
        },
    }
}

} // verus!
