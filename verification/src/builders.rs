//! The builders of the various types.
//!
//! Every builder can apply an input at a path, tell what it offers at a path and by which
//! segments the path can be extended, display itself, and give the value it holds. Paths
//! are relative to the builder: the empty path is the builder itself.

use crate::menu::{
    Choice, ChoiceView, ChooseError, ChooseErrorView, Input, Options, OptionsView,
};
use crate::model::{
    field_choices, field_idents, fields_rank, find_field, find_item, find_variant, fresh,
    fresh_fields, fresh_struct, fresh_variant, index_texts, item_choices, lemma_apply_wf,
    lemma_fields_rank, lemma_fields_rank_bound, lemma_fresh_fields, lemma_fresh_wf,
    lemma_list_values_none, lemma_parse_plain, lemma_record_values_none, list_nodes, list_values,
    or_else, or_text, plain_choice, record_nodes, record_values, removal_choices,
    variant_choices, variant_idents, variant_needs_action, variants_of, BuilderView, EDIT_ID,
    NEW_ID, REMOVE_ID, SET_ID,
};
use crate::nodes::{Field, FieldKind, FieldKindView, Node, NodeView};
use crate::schema::{fields_valid, opt_text, Generator, Shape, StructField, Type, Types};
use crate::text::{
    copy_string, index_to_string, nat_text, new_string, parse_index, read_index, str_eq, texts,
};
use crate::value::{Plain, Value, ValueView};
use vstd::prelude::*;
use vstd::slice::slice_subrange;
use vstd::string::*;

verus! {

/// The configuration for customizing the aspect of a builder.
#[derive(Debug)]
pub struct BuildableValueConfig {
    /// The default value to use, if `None` there is no default value and the field must be
    /// provided.
    pub default: Option<Value>,
    /// The prompt message to show to the user, if `None` a default message is shown.
    pub prompt: Option<String>,
}

impl Default for BuildableValueConfig {
    fn default() -> (r: Self)
        ensures
            r.default is None,
            r.prompt is None,
    {
        BuildableValueConfig { default: None, prompt: None }
    }
}

/// The interactive builder of a value: one of the builders of this module.
#[derive(Debug)]
pub enum BuildableValue {
    Plain(PlainBuilder),
    Bool(BoolBuilder),
    List(VecBuilder),
    Optional(OptionBuilder),
    Boxed(BoxBuilder),
    Struct(StructBuilder),
    Enum(EnumBuilder),
}

/// Builder for a plain type: the value is typed as text.
#[derive(Debug)]
pub struct PlainBuilder {
    kind: Plain,
    value: Option<Value>,
    prompt: String,
}

/// Builder for the type `bool`.
#[derive(Debug)]
pub struct BoolBuilder {
    value: Option<bool>,
    prompt: String,
}

/// Builder for a list.
///
/// When `__new` is applied a new item is pushed at the back of the list and when `__new` is
/// to be considered as an index it refers to the last element of the list.
#[derive(Debug)]
pub struct VecBuilder {
    items: Vec<BuildableValue>,
    element: Type,
    prompt: String,
}

/// Builder for a boxed value.
#[derive(Debug)]
pub struct BoxBuilder {
    value: Box<BuildableValue>,
}

/// Builder for an optional value.
#[derive(Debug)]
pub struct OptionBuilder {
    value: Option<Box<BuildableValue>>,
    element: Type,
    prompt: String,
}

/// Builder for a struct, and for the fields of a variant. It holds a builder for every
/// field but the hidden ones.
#[derive(Debug)]
pub struct StructBuilder {
    shape: Shape,
    fields: Vec<Option<BuildableValue>>,
    prompt: String,
}

/// Builder for an enum. It holds the variant in use, by its position, and the builder of
/// the fields of that variant.
#[derive(Debug)]
pub struct EnumBuilder {
    generator: usize,
    value: Option<(usize, Option<Box<BuildableValue>>)>,
    prompt: String,
}

impl BuildableValue {
    /// The state of the builder.
    pub closed spec fn state(&self) -> BuilderView
        decreases self, 1nat,
    {
        match self {
            BuildableValue::Plain(b) => b@,
            BuildableValue::Bool(b) => b@,
            BuildableValue::List(b) => b.state(),
            BuildableValue::Optional(b) => b.state(),
            BuildableValue::Boxed(b) => b.state(),
            BuildableValue::Struct(b) => b.state(),
            BuildableValue::Enum(b) => b.state(),
        }
    }
}

impl View for PlainBuilder {
    type V = BuilderView;

    closed spec fn view(&self) -> BuilderView {
        BuilderView::Plain {
            kind: self.kind,
            value: match self.value {
                Some(v) => Some(v@),
                None => None,
            },
            prompt: self.prompt@,
        }
    }
}

impl View for BoolBuilder {
    type V = BuilderView;

    closed spec fn view(&self) -> BuilderView {
        BuilderView::Bool { value: self.value, prompt: self.prompt@ }
    }
}

impl VecBuilder {
    /// The state of the builder.
    pub closed spec fn state(&self) -> BuilderView
        decreases self, 1nat,
    {
        BuilderView::List {
            items: self.item_states(),
            element: self.element,
            prompt: self.prompt@,
        }
    }

    /// The states of the builders of the items.
    pub closed spec fn item_states(&self) -> Seq<BuilderView>
        decreases self, 0nat,
    {
        Seq::new(
            self.items@.len(),
            |i: int|
                if 0 <= i < self.items@.len() {
                    self.items@[i].state()
                } else {
                    BuilderView::Bool { value: None, prompt: Seq::empty() }
                },
        )
    }
}

impl OptionBuilder {
    /// The state of the builder.
    pub closed spec fn state(&self) -> BuilderView
        decreases self, 1nat,
    {
        BuilderView::Optional {
            value: match self.value {
                Some(b) => Some(Box::new((*b).state())),
                None => None,
            },
            element: self.element,
            prompt: self.prompt@,
        }
    }
}

impl BoxBuilder {
    /// The state of the builder.
    pub closed spec fn state(&self) -> BuilderView
        decreases self, 1nat,
    {
        BuilderView::Boxed { value: Box::new((*self.value).state()) }
    }
}

impl StructBuilder {
    /// The state of the builder.
    pub closed spec fn state(&self) -> BuilderView
        decreases self, 1nat,
    {
        BuilderView::Struct {
            shape: self.shape,
            fields: self.field_states(),
            prompt: self.prompt@,
        }
    }

    /// The states of the builders of the fields: nothing for a hidden field.
    pub closed spec fn field_states(&self) -> Seq<Option<BuilderView>>
        decreases self, 0nat,
    {
        Seq::new(
            self.fields@.len(),
            |i: int|
                if 0 <= i < self.fields@.len() {
                    match self.fields@[i] {
                        Some(b) => Some(b.state()),
                        None => None,
                    }
                } else {
                    None
                },
        )
    }
}

impl EnumBuilder {
    /// The state of the builder.
    pub closed spec fn state(&self) -> BuilderView
        decreases self, 1nat,
    {
        BuilderView::Enum {
            generator: self.generator,
            value: self.value_state(),
            prompt: self.prompt@,
        }
    }

    /// The variant in use, with the state of the builder of its fields.
    pub closed spec fn value_state(&self) -> Option<(usize, Option<Box<BuilderView>>)>
        decreases self, 0nat,
    {
        match self.value {
            Some((k, Some(b))) => Some((k, Some(Box::new((*b).state())))),
            Some((k, None)) => Some((k, None)),
            None => None,
        }
    }
}

impl View for BuildableValue {
    type V = BuilderView;

    closed spec fn view(&self) -> BuilderView {
        self.state()
    }
}

impl View for VecBuilder {
    type V = BuilderView;

    closed spec fn view(&self) -> BuilderView {
        self.state()
    }
}

impl View for OptionBuilder {
    type V = BuilderView;

    closed spec fn view(&self) -> BuilderView {
        self.state()
    }
}

impl View for BoxBuilder {
    type V = BuilderView;

    closed spec fn view(&self) -> BuilderView {
        self.state()
    }
}

impl View for StructBuilder {
    type V = BuilderView;

    closed spec fn view(&self) -> BuilderView {
        self.state()
    }
}

impl View for EnumBuilder {
    type V = BuilderView;

    closed spec fn view(&self) -> BuilderView {
        self.state()
    }
}

/// The contents of a list of values.
pub open spec fn value_views(values: Seq<Value>) -> Seq<ValueView> {
    Seq::new(values.len(), |i: int| values[i]@)
}

/// The contents of a list of fields with their values.
pub open spec fn entry_views(entries: Seq<(String, Value)>) -> Seq<(Seq<char>, ValueView)> {
    Seq::new(entries.len(), |i: int| (entries[i].0@, entries[i].1@))
}

/// The contents of a list of displayed fields.
pub open spec fn kind_views(kinds: Seq<FieldKind>) -> Seq<FieldKindView> {
    Seq::new(kinds.len(), |i: int| kinds[i]@)
}

/// The list that holds the given values.
fn list_value(values: Vec<Value>) -> (r: Value)
    ensures
        r@ == ValueView::List(value_views(values@)),
{
    let r = Value::List(values);
    assert(r@->List_0 =~= value_views(values@));
    r
}

/// The record that holds the given fields.
fn record_value(name: String, entries: Vec<(String, Value)>) -> (r: Value)
    ensures
        r@ == ValueView::Record(name@, entry_views(entries@)),
{
    let r = Value::Record(name, entries);
    assert(r@->Record_1 =~= entry_views(entries@));
    r
}

/// The composite that shows the given fields.
fn composite(name: String, kinds: Vec<FieldKind>) -> (r: Node)
    ensures
        r@ == NodeView::Composite(name@, kind_views(kinds@)),
{
    let r = Node::Composite(name, kinds);
    assert(r@->Composite_1 =~= kind_views(kinds@));
    r
}

impl BuildableValue {
    /// Get the inner value, if present, whatever its type.
    pub fn get_value_any(&self, types: &Types) -> (r: Option<Value>)
        requires
            self@.wf(types),
        ensures
            r matches Some(v) ==> self@.value(types) == Some(v@),
            r is None ==> self@.value(types) is None,
        decreases self,
    {
        match self {
            BuildableValue::Plain(b) => b.get_value_any(),
            BuildableValue::Bool(b) => b.get_value_any(),
            BuildableValue::List(b) => b.get_value_any(types),
            BuildableValue::Optional(b) => b.get_value_any(types),
            BuildableValue::Boxed(b) => b.get_value_any(types),
            BuildableValue::Struct(b) => b.get_value_any(types),
            BuildableValue::Enum(b) => b.get_value_any(types),
        }
    }

    /// Create the tree structure of this value.
    pub fn to_node(&self, types: &Types) -> (r: Node)
        requires
            self@.wf(types),
        ensures
            r@ == self@.node(types),
        decreases self,
    {
        match self {
            BuildableValue::Plain(b) => b.to_node(),
            BuildableValue::Bool(b) => b.to_node(),
            BuildableValue::List(b) => b.to_node(types),
            BuildableValue::Optional(b) => b.to_node(types),
            BuildableValue::Boxed(b) => b.to_node(types),
            BuildableValue::Struct(b) => b.to_node(types),
            BuildableValue::Enum(b) => b.to_node(types),
        }
    }
}

impl PlainBuilder {
    /// Get the inner value, if present, whatever its type.
    pub fn get_value_any(&self) -> (r: Option<Value>)
        ensures
            r matches Some(v) ==> self@ matches BuilderView::Plain { value: Some(held), .. }
                && held == v@,
            r is None ==> self@ matches BuilderView::Plain { value: None, .. },
    {
        match &self.value {
            Some(v) => Some(v.copy()),
            None => None,
        }
    }

    /// Create the tree structure of this value.
    pub fn to_node(&self) -> (r: Node)
        ensures
            forall|types: &Types| r@ == #[trigger] self@.node(types),
    {
        match &self.value {
            Some(v) => Node::Leaf(Field::String(v.text())),
            None => Node::Leaf(Field::Missing),
        }
    }
}

impl BoolBuilder {
    /// Get the inner value, if present, whatever its type.
    pub fn get_value_any(&self) -> (r: Option<Value>)
        ensures
            r matches Some(v) ==> self@ matches BuilderView::Bool { value: Some(held), .. }
                && v@ == ValueView::Bool(held),
            r is None ==> self@ matches BuilderView::Bool { value: None, .. },
    {
        match self.value {
            Some(b) => Some(Value::Bool(b)),
            None => None,
        }
    }

    /// Create the tree structure of this value.
    pub fn to_node(&self) -> (r: Node)
        ensures
            forall|types: &Types| r@ == #[trigger] self@.node(types),
    {
        match self.value {
            Some(b) => Node::Leaf(Field::String(Value::Bool(b).text())),
            None => Node::Leaf(Field::Missing),
        }
    }
}

impl VecBuilder {
    /// The builder of every item is in a state that it can be in.
    proof fn lemma_items_wf(&self, types: &Types)
        requires
            self@.wf(types),
        ensures
            self.item_states().len() == self.items@.len(),
            forall|k: int|
                0 <= k < self.items@.len() ==> (#[trigger] self.items@[k])@.wf(types)
                    && self.item_states()[k] == self.items@[k]@,
            self.element.closed(types.generators().len() as int),
    {
        assert(self@->items == self.item_states());
        assert forall|k: int| 0 <= k < self.items@.len() implies (#[trigger] self.items@[k])@.wf(
            types,
        ) && self.item_states()[k] == self.items@[k]@ by {
            assert(self@->items[k].wf(types));
        }
    }

    /// Get the inner value, if present, whatever its type.
    pub fn get_value_any(&self, types: &Types) -> (r: Option<Value>)
        requires
            self@.wf(types),
        ensures
            r matches Some(v) ==> self@.value(types) == Some(v@),
            r is None ==> self@.value(types) is None,
        decreases self,
    {
        let ghost items = self.item_states();
        proof {
            self.lemma_items_wf(types);
        }
        let mut results: Vec<Value> = Vec::new();
        let mut i: usize = 0;
        while i < self.items.len()
            invariant
                i <= self.items@.len(),
                items == self.item_states(),
                items.len() == self.items@.len(),
                forall|k: int|
                    0 <= k < self.items@.len() ==> (#[trigger] self.items@[k])@.wf(types)
                        && items[k] == self.items@[k]@,
                list_values(types, items, i as int) == Some(value_views(results@)),
            decreases self.items@.len() - i,
        {
            match self.items[i].get_value_any(types) {
                Some(v) => {
                    let ghost before = results@;
                    let ghost held = v@;
                    results.push(v);
                    assert(value_views(results@) =~= value_views(before).push(held));
                },
                None => {
                    proof {
                        lemma_list_values_none(
                            types,
                            items,
                            i as int + 1,
                            self.items@.len() as int,
                        );
                    }
                    return None;
                },
            }
            i = i + 1;
        }
        Some(list_value(results))
    }

    /// Create the tree structure of this value.
    pub fn to_node(&self, types: &Types) -> (r: Node)
        requires
            self@.wf(types),
        ensures
            r@ == self@.node(types),
        decreases self,
    {
        let ghost items = self.item_states();
        proof {
            self.lemma_items_wf(types);
        }
        let mut nodes: Vec<FieldKind> = Vec::new();
        let mut i: usize = 0;
        while i < self.items.len()
            invariant
                i <= self.items@.len(),
                items == self.item_states(),
                items.len() == self.items@.len(),
                forall|k: int|
                    0 <= k < self.items@.len() ==> (#[trigger] self.items@[k])@.wf(types)
                        && items[k] == self.items@[k]@,
                kind_views(nodes@) == list_nodes(types, items, i as int),
            decreases self.items@.len() - i,
        {
            let ghost before = nodes@;
            let node = self.items[i].to_node(types);
            nodes.push(FieldKind::Unnamed(node));
            assert(kind_views(nodes@) =~= kind_views(before).push(
                FieldKindView::Unnamed(items[i as int].node(types)),
            ));
            i = i + 1;
        }
        // A list has no name.
        composite(String::new(), nodes)
    }
}

impl OptionBuilder {
    /// Get the inner value, if present, whatever its type.
    pub fn get_value_any(&self, types: &Types) -> (r: Option<Value>)
        requires
            self@.wf(types),
        ensures
            r matches Some(v) ==> self@.value(types) == Some(v@),
            r is None ==> self@.value(types) is None,
        decreases self,
    {
        match &self.value {
            Some(inner) => match inner.get_value_any(types) {
                Some(v) => Some(Value::Optional(Some(Box::new(v)))),
                None => None,
            },
            None => Some(Value::Optional(None)),
        }
    }

    /// Create the tree structure of this value.
    pub fn to_node(&self, types: &Types) -> (r: Node)
        requires
            self@.wf(types),
        ensures
            r@ == self@.node(types),
        decreases self,
    {
        match &self.value {
            Some(inner) => inner.to_node(types),
            None => Node::Leaf(Field::String(new_string("None"))),
        }
    }
}

impl BoxBuilder {
    /// Get the inner value, if present, whatever its type.
    pub fn get_value_any(&self, types: &Types) -> (r: Option<Value>)
        requires
            self@.wf(types),
        ensures
            r matches Some(v) ==> self@.value(types) == Some(v@),
            r is None ==> self@.value(types) is None,
        decreases self,
    {
        match self.value.get_value_any(types) {
            Some(v) => Some(Value::Boxed(Box::new(v))),
            None => None,
        }
    }

    /// Create the tree structure of this value.
    pub fn to_node(&self, types: &Types) -> (r: Node)
        requires
            self@.wf(types),
        ensures
            r@ == self@.node(types),
        decreases self,
    {
        self.value.to_node(types)
    }
}

impl StructBuilder {
    /// The builder of every shown field is in a state that it can be in.
    proof fn lemma_fields_wf(&self, types: &Types)
        requires
            self@.wf(types),
        ensures
            types.has(self.shape),
            self.field_states().len() == self.fields@.len(),
            self.fields@.len() == types.fields(self.shape).len(),
            forall|k: int|
                0 <= k < self.fields@.len() ==> (#[trigger] self.field_states()[k] is None)
                    == types.fields(self.shape)[k].metadata.hidden,
            forall|k: int|
                0 <= k < self.fields@.len() ==> (#[trigger] self.fields@[k] matches Some(b)
                    ==> b@.wf(types) && self.field_states()[k] == Some(b@)),
            forall|k: int|
                0 <= k < self.fields@.len() ==> (#[trigger] self.fields@[k] is None
                    ==> self.field_states()[k] is None),
    {
        assert(self@->fields == self.field_states());
        assert forall|k: int| 0 <= k < self.fields@.len() implies (#[trigger] self.fields@[k] matches Some(
            b,
        ) ==> b@.wf(types) && self.field_states()[k] == Some(b@)) by {
            assert(self@->fields[k] matches Some(s) ==> s.wf(types));
        }
    }

    /// Get the inner value, if present, whatever its type.
    pub fn get_value_any(&self, types: &Types) -> (r: Option<Value>)
        requires
            self@.wf(types),
        ensures
            r matches Some(v) ==> self@.value(types) == Some(v@),
            r is None ==> self@.value(types) is None,
        decreases self,
    {
        let ghost fields = self.field_states();
        proof {
            self.lemma_fields_wf(types);
        }
        let described = types.shape_fields(self.shape);
        if types.shape_named(self.shape) {
            let mut entries: Vec<(String, Value)> = Vec::new();
            let mut j: usize = 0;
            while j < self.fields.len()
                invariant
                    j <= self.fields@.len(),
                    fields == self.field_states(),
                    self.fields@.len() == described@.len(),
                    forall|k: int|
                        0 <= k < self.fields@.len() ==> (#[trigger] self.fields@[k] matches Some(b)
                            ==> b@.wf(types) && fields[k] == Some(b@)),
                    forall|k: int|
                        0 <= k < self.fields@.len() ==> (#[trigger] self.fields@[k] is None
                            ==> fields[k] is None),
                    self@ == (BuilderView::Struct { shape: self.shape, fields, prompt: self.prompt@ }),
                    described@ == types.fields(self.shape),
                    types.named(self.shape),
                    record_values(types, described@, fields, j as int) == Some(
                        entry_views(entries@),
                    ),
                decreases self.fields@.len() - j,
            {
                let ghost before = entries@;
                let value = match &self.fields[j] {
                    Some(b) => b.get_value_any(types),
                    None => match &described[j].metadata.default {
                        Some(v) => Some(v.copy()),
                        None => None,
                    },
                };
                match value {
                    Some(v) => {
                        let ghost held = v@;
                        entries.push((copy_string(&described[j].ident), v));
                        assert(entry_views(entries@) =~= entry_views(before).push(
                            (described@[j as int].ident@, held),
                        ));
                    },
                    None => {
                        proof {
                            assert(record_values(types, described@, fields, j as int + 1) is None);
                            lemma_record_values_none(
                                types,
                                described@,
                                fields,
                                j as int + 1,
                                self.fields@.len() as int,
                            );
                        }
                        return None;
                    },
                }
                j = j + 1;
            }
            Some(record_value(copy_string(types.shape_ident(self.shape)), entries))
        } else if self.fields.len() > 0 {
            match &self.fields[0] {
                Some(b) => {
                    match b.get_value_any(types) {
                        Some(v) => Some(
                            Value::Wrapper(
                                copy_string(types.shape_ident(self.shape)),
                                Box::new(v),
                            ),
                        ),
                        None => None,
                    }
                },
                None => None,
            }
        } else {
            None
        }
    }

    /// Create the tree structure of this value.
    pub fn to_node(&self, types: &Types) -> (r: Node)
        requires
            self@.wf(types),
        ensures
            r@ == self@.node(types),
        decreases self,
    {
        let ghost fields = self.field_states();
        proof {
            self.lemma_fields_wf(types);
        }
        let described = types.shape_fields(self.shape);
        let mut nodes: Vec<FieldKind> = Vec::new();
        if types.shape_named(self.shape) {
            let mut j: usize = 0;
            while j < self.fields.len()
                invariant
                    j <= self.fields@.len(),
                    fields == self.field_states(),
                    self.fields@.len() == described@.len(),
                    forall|k: int|
                        0 <= k < self.fields@.len() ==> (#[trigger] self.fields@[k] matches Some(b)
                            ==> b@.wf(types) && fields[k] == Some(b@)),
                    forall|k: int|
                        0 <= k < self.fields@.len() ==> (#[trigger] self.fields@[k] is None
                            ==> fields[k] is None),
                    described@ == types.fields(self.shape),
                    types.named(self.shape),
                    kind_views(nodes@) == record_nodes(types, described@, fields, j as int),
                decreases self.fields@.len() - j,
            {
                let ghost before = nodes@;
                match &self.fields[j] {
                    Some(b) => {
                        let node = b.to_node(types);
                        nodes.push(FieldKind::Named(copy_string(described[j].actual_name()), node));
                        assert(kind_views(nodes@) =~= kind_views(before).push(
                            FieldKindView::Named(
                                described@[j as int].name(),
                                fields[j as int]->Some_0.node(types),
                            ),
                        ));
                    },
                    None => {},
                }
                j = j + 1;
            }
        } else if self.fields.len() > 0 {
            match &self.fields[0] {
                Some(b) => {
                    let node = b.to_node(types);
                    nodes.push(FieldKind::Unnamed(node));
                    assert(kind_views(nodes@) =~= seq![
                        FieldKindView::Unnamed(fields[0]->Some_0.node(types)),
                    ]);
                },
                None => {},
            }
        }
        assert(nodes@.len() == 0 ==> kind_views(nodes@) =~= Seq::empty());
        composite(copy_string(types.shape_name(self.shape)), nodes)
    }
}

impl EnumBuilder {
    /// Get the inner value, if present, whatever its type.
    pub fn get_value_any(&self, types: &Types) -> (r: Option<Value>)
        requires
            self@.wf(types),
        ensures
            r matches Some(v) ==> self@.value(types) == Some(v@),
            r is None ==> self@.value(types) is None,
        decreases self,
    {
        match &self.value {
            None => None,
            Some((k, None)) => {
                let variants = types.enum_variants(self.generator);
                Some(Value::Unit(copy_string(&variants[*k].ident)))
            },
            Some((k, Some(inner))) => inner.get_value_any(types),
        }
    }

    /// Create the tree structure of this value.
    pub fn to_node(&self, types: &Types) -> (r: Node)
        requires
            self@.wf(types),
        ensures
            r@ == self@.node(types),
        decreases self,
    {
        match &self.value {
            None => Node::Leaf(Field::Missing),
            Some((k, None)) => {
                let variants = types.enum_variants(self.generator);
                Node::Leaf(Field::String(copy_string(variants[*k].actual_name())))
            },
            Some((k, Some(inner))) => inner.to_node(types),
        }
    }
}

/// The contents of a list of choices.
pub open spec fn choice_views(choices: Seq<Choice>) -> Seq<ChoiceView> {
    Seq::new(choices.len(), |i: int| choices[i]@)
}

/// The options with a query and a list of choices.
fn make_options(query: String, text_input: bool, choices: Vec<Choice>) -> (r: Options)
    ensures
        r@ == (OptionsView {
            query: query@,
            text_input,
            choices: choice_views(choices@),
        }),
{
    let r = Options { query, text_input, choices };
    assert(r@.choices =~= choice_views(choices@));
    r
}

/// A choice that never needs action.
fn make_choice(choice_id: &str, text: &str) -> (r: Choice)
    ensures
        r@ == plain_choice(choice_id@, text@),
{
    Choice { choice_id: new_string(choice_id), text: new_string(text), needs_action: false }
}

/// A text made of a fixed beginning and a given end.
fn join(start: &str, end: &str) -> (r: String)
    ensures
        r@ == start@ + end@,
{
    let mut r = new_string(start);
    r.append(end);
    r
}

/// The first segment of a path, and the rest of it.
fn split_path(path: &[String]) -> (r: (&String, &[String]))
    requires
        path@.len() > 0,
    ensures
        r.0@ == texts(path@)[0],
        texts(r.1@) == texts(path@).skip(1),
{
    let rest = slice_subrange(path, 1, path.len());
    assert(texts(rest@) =~= texts(path@).skip(1));
    (&path[0], rest)
}

/// The item of a list that a segment names.
fn item_named(len: usize, segment: &str) -> (r: Option<usize>)
    ensures
        r matches Some(i) ==> i < len && find_item(len as nat, segment@) == Some(i as int),
        r is None ==> find_item(len as nat, segment@) is None,
{
    if str_eq(segment, NEW_ID) {
        if len > 0 {
            Some(len - 1)
        } else {
            None
        }
    } else {
        match read_index(segment) {
            Some(i) => if i < len {
                Some(i)
            } else {
                None
            },
            None => None,
        }
    }
}

/// The index of a list that a choice names.
fn index_chosen(len: usize, choice: &str) -> (r: Option<usize>)
    ensures
        r matches Some(i) ==> i < len && parse_index(choice@) == Some(i as int),
        r is None ==> !(parse_index(choice@) matches Some(i) && 0 <= i < len),
{
    match read_index(choice) {
        Some(i) => if i < len {
            Some(i)
        } else {
            None
        },
        None => None,
    }
}

/// The position of the first shown field that is called `ident`.
fn field_named(described: &Vec<StructField>, ident: &str) -> (r: Option<usize>)
    ensures
        r matches Some(j) ==> j < described@.len() && find_field(described@, ident@, 0) == Some(
            j as int,
        ) && !described@[j as int].metadata.hidden,
        r is None ==> find_field(described@, ident@, 0) is None,
{
    let mut j: usize = 0;
    while j < described.len()
        invariant
            j <= described@.len(),
            find_field(described@, ident@, 0) == find_field(described@, ident@, j as int),
        decreases described@.len() - j,
    {
        if !described[j].metadata.hidden && str_eq(described[j].ident.as_str(), ident) {
            return Some(j);
        }
        j = j + 1;
    }
    None
}

/// The position of the first variant that is not hidden and is called `ident`.
fn variant_named(types: &Types, generator: usize, ident: &str) -> (r: Option<usize>)
    requires
        types.has_enum(generator),
    ensures
        r matches Some(k) ==> k < variants_of(types, generator).len() && find_variant(
            types,
            generator,
            ident@,
            0,
        ) == Some(k as int) && !variants_of(types, generator)[k as int].metadata.hidden,
        r is None ==> find_variant(types, generator, ident@, 0) is None,
{
    let variants = types.enum_variants(generator);
    let mut k: usize = 0;
    while k < variants.len()
        invariant
            k <= variants@.len(),
            variants@ == variants_of(types, generator),
            find_variant(types, generator, ident@, 0) == find_variant(
                types,
                generator,
                ident@,
                k as int,
            ),
        decreases variants@.len() - k,
    {
        if !variants[k].metadata.hidden && str_eq(variants[k].ident.as_str(), ident) {
            return Some(k);
        }
        k = k + 1;
    }
    None
}

impl BuildableValue {
    /// The segments by which the path can be extended: the choices that lead to another
    /// builder, or to another menu.
    pub fn get_subfields(&self, types: &Types, current_fields: &[String]) -> (r: Vec<String>)
        requires
            self@.wf(types),
            self@.valid_path(types, texts(current_fields@)),
        ensures
            texts(r@) == self@.subfields(types, texts(current_fields@)),
        decreases self,
    {
        match self {
            BuildableValue::Plain(b) => b.get_subfields(current_fields),
            BuildableValue::Bool(b) => b.get_subfields(current_fields),
            BuildableValue::List(b) => b.get_subfields(types, current_fields),
            BuildableValue::Optional(b) => b.get_subfields(types, current_fields),
            BuildableValue::Boxed(b) => b.get_subfields(types, current_fields),
            BuildableValue::Struct(b) => b.get_subfields(types, current_fields),
            BuildableValue::Enum(b) => b.get_subfields(types, current_fields),
        }
    }

    /// The options to show to the user at a path.
    pub fn get_options(&self, types: &Types, current_fields: &[String]) -> (r: Options)
        requires
            self@.wf(types),
            self@.valid_path(types, texts(current_fields@)),
        ensures
            r@ == self@.options(types, texts(current_fields@)),
        decreases self,
    {
        match self {
            BuildableValue::Plain(b) => b.get_options(current_fields),
            BuildableValue::Bool(b) => b.get_options(current_fields),
            BuildableValue::List(b) => b.get_options(types, current_fields),
            BuildableValue::Optional(b) => b.get_options(types, current_fields),
            BuildableValue::Boxed(b) => b.get_options(types, current_fields),
            BuildableValue::Struct(b) => b.get_options(types, current_fields),
            BuildableValue::Enum(b) => b.get_options(types, current_fields),
        }
    }
}

impl PlainBuilder {
    /// A plain value has nothing below it.
    pub fn get_subfields(&self, current_fields: &[String]) -> (r: Vec<String>)
        ensures
            r@.len() == 0,
            forall|types: &Types|
                texts(r@) == #[trigger] self@.subfields(types, texts(current_fields@)),
    {
        let r: Vec<String> = Vec::new();
        assert(texts(r@) =~= Seq::empty());
        r
    }

    /// The options to show to the user: the prompt, and a text to type.
    pub fn get_options(&self, current_fields: &[String]) -> (r: Options)
        requires
            current_fields@.len() == 0,
        ensures
            forall|types: &Types|
                r@ == #[trigger] self@.options(types, texts(current_fields@)),
            r.text_input,
            r.choices@.len() == 0,
    {
        let r = make_options(copy_string(&self.prompt), true, Vec::new());
        assert(r@.choices =~= Seq::empty());
        r
    }
}

impl BoolBuilder {
    /// A boolean has nothing below it.
    pub fn get_subfields(&self, current_fields: &[String]) -> (r: Vec<String>)
        ensures
            r@.len() == 0,
            forall|types: &Types|
                texts(r@) == #[trigger] self@.subfields(types, texts(current_fields@)),
    {
        let r: Vec<String> = Vec::new();
        assert(texts(r@) =~= Seq::empty());
        r
    }

    /// The options to show to the user: the prompt, and the two values to choose from.
    pub fn get_options(&self, current_fields: &[String]) -> (r: Options)
        requires
            current_fields@.len() == 0,
        ensures
            forall|types: &Types|
                r@ == #[trigger] self@.options(types, texts(current_fields@)),
    {
        let mut choices: Vec<Choice> = Vec::new();
        choices.push(make_choice("true", "true"));
        choices.push(make_choice("false", "false"));
        let r = make_options(copy_string(&self.prompt), false, choices);
        assert(r@.choices =~= seq![plain_choice("true"@, "true"@), plain_choice("false"@, "false"@)]);
        r
    }
}

impl VecBuilder {
    /// The segments by which the path can be extended.
    pub fn get_subfields(&self, types: &Types, current_fields: &[String]) -> (r: Vec<String>)
        requires
            self@.wf(types),
            self@.valid_path(types, texts(current_fields@)),
        ensures
            texts(r@) == self@.subfields(types, texts(current_fields@)),
        decreases self,
    {
        proof {
            self.lemma_items_wf(types);
        }
        // main menu
        if current_fields.len() == 0 {
            let mut res: Vec<String> = Vec::new();
            res.push(new_string(NEW_ID));
            if self.items.len() == 0 {
                assert(texts(res@) =~= seq![NEW_ID@]);
                return res;
            }
            res.push(new_string(REMOVE_ID));
            assert(texts(res@) =~= seq![NEW_ID@, REMOVE_ID@] + index_texts(0));
            let mut i: usize = 0;
            while i < self.items.len()
                invariant
                    i <= self.items@.len(),
                    texts(res@) == seq![NEW_ID@, REMOVE_ID@] + index_texts(i as int),
                decreases self.items@.len() - i,
            {
                let ghost before = res@;
                res.push(index_to_string(i));
                assert(texts(res@) =~= texts(before).push(nat_text(i as nat)));
                assert(texts(res@) =~= seq![NEW_ID@, REMOVE_ID@] + index_texts(i as int + 1));
                i = i + 1;
            }
            res
        } else {
            let (field, rest) = split_path(current_fields);
            if str_eq(field.as_str(), REMOVE_ID) {
                // just select the item to remove
                let res: Vec<String> = Vec::new();
                assert(texts(res@) =~= Seq::empty());
                res
            } else {
                match item_named(self.items.len(), field.as_str()) {
                    Some(i) => self.items[i].get_subfields(types, rest),
                    None => {
                        let res: Vec<String> = Vec::new();
                        assert(texts(res@) =~= Seq::empty());
                        res
                    },
                }
            }
        }
    }

    /// The options to show to the user at a path.
    pub fn get_options(&self, types: &Types, current_fields: &[String]) -> (r: Options)
        requires
            self@.wf(types),
            self@.valid_path(types, texts(current_fields@)),
        ensures
            r@ == self@.options(types, texts(current_fields@)),
        decreases self,
    {
        let ghost items = self.item_states();
        proof {
            self.lemma_items_wf(types);
        }
        // main menu
        if current_fields.len() == 0 {
            let mut choices: Vec<Choice> = Vec::new();
            choices.push(make_choice(NEW_ID, "New element"));
            if self.items.len() > 0 {
                choices.push(make_choice(REMOVE_ID, "Remove element"));
                assert(choice_views(choices@) =~= seq![
                    plain_choice(NEW_ID@, "New element"@),
                    plain_choice(REMOVE_ID@, "Remove element"@),
                ] + item_choices(types, items, 0));
                let mut i: usize = 0;
                while i < self.items.len()
                    invariant
                        i <= self.items@.len(),
                        items == self.item_states(),
                        items.len() == self.items@.len(),
                        forall|k: int|
                            0 <= k < self.items@.len() ==> (#[trigger] self.items@[k])@.wf(types)
                                && items[k] == self.items@[k]@,
                        choice_views(choices@) == seq![
                            plain_choice(NEW_ID@, "New element"@),
                            plain_choice(REMOVE_ID@, "Remove element"@),
                        ] + item_choices(types, items, i as int),
                    decreases self.items@.len() - i,
                {
                    let ghost before = choices@;
                    let id = index_to_string(i);
                    let text = join("Edit item ", id.as_str());
                    let needs_action = self.items[i].get_value_any(types).is_none();
                    let choice = Choice { choice_id: id, text, needs_action };
                    let ghost added = choice@;
                    choices.push(choice);
                    assert(choice_views(choices@) =~= choice_views(before).push(added));
                    assert(choice_views(choices@) =~= seq![
                        plain_choice(NEW_ID@, "New element"@),
                        plain_choice(REMOVE_ID@, "Remove element"@),
                    ] + item_choices(types, items, i as int + 1));
                    i = i + 1;
                }
            } else {
                assert(choice_views(choices@) =~= seq![plain_choice(NEW_ID@, "New element"@)]);
            }
            make_options(copy_string(&self.prompt), false, choices)
        } else {
            let (field, rest) = split_path(current_fields);
            if str_eq(field.as_str(), REMOVE_ID) {
                // select the item to remove
                let mut choices: Vec<Choice> = Vec::new();
                assert(choice_views(choices@) =~= removal_choices(0));
                let mut i: usize = 0;
                while i < self.items.len()
                    invariant
                        i <= self.items@.len(),
                        choice_views(choices@) == removal_choices(i as int),
                    decreases self.items@.len() - i,
                {
                    let ghost before = choices@;
                    let id = index_to_string(i);
                    let text = join("Remove item ", id.as_str());
                    let choice = Choice { choice_id: id, text, needs_action: false };
                    let ghost added = choice@;
                    choices.push(choice);
                    assert(choice_views(choices@) =~= choice_views(before).push(added));
                    i = i + 1;
                }
                make_options(new_string("Select the item to remove"), false, choices)
            } else {
                match item_named(self.items.len(), field.as_str()) {
                    // `__new` is the last item, else the item at the index
                    Some(i) => self.items[i].get_options(types, rest),
                    None => {
                        let choices: Vec<Choice> = Vec::new();
                        assert(choice_views(choices@) =~= Seq::empty());
                        make_options(copy_string(&self.prompt), false, choices)
                    },
                }
            }
        }
    }
}

impl OptionBuilder {
    /// The state of the builder of the value, if one is there.
    proof fn lemma_value_wf(&self, types: &Types)
        requires
            self@.wf(types),
        ensures
            self.element.closed(types.generators().len() as int),
            self.value matches Some(inner) ==> inner@.wf(types) && self@ == (BuilderView::Optional {
                value: Some(Box::new(inner@)),
                element: self.element,
                prompt: self.prompt@,
            }),
            self.value is None ==> self@ == (BuilderView::Optional {
                value: None,
                element: self.element,
                prompt: self.prompt@,
            }),
    {
    }

    /// The segments by which the path can be extended.
    pub fn get_subfields(&self, types: &Types, current_fields: &[String]) -> (r: Vec<String>)
        requires
            self@.wf(types),
            self@.valid_path(types, texts(current_fields@)),
        ensures
            texts(r@) == self@.subfields(types, texts(current_fields@)),
        decreases self,
    {
        proof {
            self.lemma_value_wf(types);
        }
        if current_fields.len() == 0 {
            let mut res: Vec<String> = Vec::new();
            match &self.value {
                Some(_) => {
                    res.push(new_string(EDIT_ID));
                    assert(texts(res@) =~= seq![EDIT_ID@]);
                },
                None => {
                    res.push(new_string(SET_ID));
                    assert(texts(res@) =~= seq![SET_ID@]);
                },
            }
            res
        } else {
            let (field, rest) = split_path(current_fields);
            match &self.value {
                Some(inner) => inner.get_subfields(types, rest),
                None => vstd::pervasive::unreached(),
            }
        }
    }

    /// The options to show to the user at a path.
    pub fn get_options(&self, types: &Types, current_fields: &[String]) -> (r: Options)
        requires
            self@.wf(types),
            self@.valid_path(types, texts(current_fields@)),
        ensures
            r@ == self@.options(types, texts(current_fields@)),
        decreases self,
    {
        proof {
            self.lemma_value_wf(types);
        }
        if current_fields.len() == 0 {
            let mut choices: Vec<Choice> = Vec::new();
            match &self.value {
                Some(_) => {
                    choices.push(make_choice(REMOVE_ID, "Remove value"));
                    choices.push(make_choice(EDIT_ID, "Edit value"));
                    assert(choice_views(choices@) =~= seq![
                        plain_choice(REMOVE_ID@, "Remove value"@),
                        plain_choice(EDIT_ID@, "Edit value"@),
                    ]);
                },
                None => {
                    choices.push(make_choice(SET_ID, "Set value"));
                    assert(choice_views(choices@) =~= seq![plain_choice(SET_ID@, "Set value"@)]);
                },
            }
            make_options(copy_string(&self.prompt), false, choices)
        } else {
            let (field, rest) = split_path(current_fields);
            match &self.value {
                Some(inner) => inner.get_options(types, rest),
                None => vstd::pervasive::unreached(),
            }
        }
    }
}

impl BoxBuilder {
    /// The segments by which the path can be extended.
    pub fn get_subfields(&self, types: &Types, current_fields: &[String]) -> (r: Vec<String>)
        requires
            self@.wf(types),
            self@.valid_path(types, texts(current_fields@)),
        ensures
            texts(r@) == self@.subfields(types, texts(current_fields@)),
        decreases self,
    {
        self.value.get_subfields(types, current_fields)
    }

    /// The options to show to the user at a path.
    pub fn get_options(&self, types: &Types, current_fields: &[String]) -> (r: Options)
        requires
            self@.wf(types),
            self@.valid_path(types, texts(current_fields@)),
        ensures
            r@ == self@.options(types, texts(current_fields@)),
        decreases self,
    {
        self.value.get_options(types, current_fields)
    }
}

impl StructBuilder {
    /// The segments by which the path can be extended.
    pub fn get_subfields(&self, types: &Types, current_fields: &[String]) -> (r: Vec<String>)
        requires
            self@.wf(types),
            self@.valid_path(types, texts(current_fields@)),
        ensures
            texts(r@) == self@.subfields(types, texts(current_fields@)),
        decreases self,
    {
        let ghost fields = self.field_states();
        proof {
            self.lemma_fields_wf(types);
        }
        let described = types.shape_fields(self.shape);
        if !types.shape_named(self.shape) {
            if self.fields.len() > 0 {
                match &self.fields[0] {
                    Some(b) => {
                        return b.get_subfields(types, current_fields);
                    },
                    None => {},
                }
            }
            vstd::pervasive::unreached()
        } else if current_fields.len() == 0 {
            let mut res: Vec<String> = Vec::new();
            assert(texts(res@) =~= field_idents(described@, 0));
            let mut j: usize = 0;
            while j < described.len()
                invariant
                    j <= described@.len(),
                    texts(res@) == field_idents(described@, j as int),
                decreases described@.len() - j,
            {
                let ghost before = res@;
                if !described[j].metadata.hidden {
                    res.push(copy_string(&described[j].ident));
                    assert(texts(res@) =~= texts(before).push(described@[j as int].ident@));
                }
                j = j + 1;
            }
            res
        } else {
            let (field, rest) = split_path(current_fields);
            match field_named(described, field.as_str()) {
                Some(j) => match &self.fields[j] {
                    Some(b) => b.get_subfields(types, rest),
                    None => vstd::pervasive::unreached(),
                },
                None => vstd::pervasive::unreached(),
            }
        }
    }

    /// The options to show to the user at a path.
    pub fn get_options(&self, types: &Types, current_fields: &[String]) -> (r: Options)
        requires
            self@.wf(types),
            self@.valid_path(types, texts(current_fields@)),
        ensures
            r@ == self@.options(types, texts(current_fields@)),
        decreases self,
    {
        let ghost fields = self.field_states();
        proof {
            self.lemma_fields_wf(types);
        }
        let described = types.shape_fields(self.shape);
        if !types.shape_named(self.shape) {
            if self.fields.len() > 0 {
                match &self.fields[0] {
                    Some(b) => {
                        return b.get_options(types, current_fields);
                    },
                    None => {},
                }
            }
            vstd::pervasive::unreached()
        } else if current_fields.len() == 0 {
            let mut choices: Vec<Choice> = Vec::new();
            assert(choice_views(choices@) =~= field_choices(types, described@, fields, 0));
            let mut j: usize = 0;
            while j < self.fields.len()
                invariant
                    j <= self.fields@.len(),
                    fields == self.field_states(),
                    fields.len() == self.fields@.len(),
                    self.fields@.len() == described@.len(),
                    forall|k: int|
                        0 <= k < self.fields@.len() ==> (#[trigger] self.fields@[k] matches Some(b)
                            ==> b@.wf(types) && fields[k] == Some(b@)),
                    forall|k: int|
                        0 <= k < self.fields@.len() ==> (#[trigger] self.fields@[k] is None
                            ==> fields[k] is None),
                    choice_views(choices@) == field_choices(types, described@, fields, j as int),
                decreases self.fields@.len() - j,
            {
                let ghost before = choices@;
                match &self.fields[j] {
                    Some(b) => {
                        let choice = Choice {
                            choice_id: copy_string(&described[j].ident),
                            text: join("Edit ", described[j].actual_name().as_str()),
                            needs_action: b.get_value_any(types).is_none(),
                        };
                        let ghost added = choice@;
                        choices.push(choice);
                        assert(choice_views(choices@) =~= choice_views(before).push(added));
                    },
                    None => {},
                }
                j = j + 1;
            }
            make_options(copy_string(&self.prompt), false, choices)
        } else {
            let (field, rest) = split_path(current_fields);
            match field_named(described, field.as_str()) {
                Some(j) => match &self.fields[j] {
                    Some(b) => b.get_options(types, rest),
                    None => vstd::pervasive::unreached(),
                },
                None => vstd::pervasive::unreached(),
            }
        }
    }
}

impl EnumBuilder {
    /// The variant in use is one of the enum, and the builder of its fields is in a state
    /// that it can be in.
    proof fn lemma_value_wf(&self, types: &Types)
        requires
            self@.wf(types),
        ensures
            types.has_enum(self.generator),
            self@ == (BuilderView::Enum {
                generator: self.generator,
                value: self.value_state(),
                prompt: self.prompt@,
            }),
            self.value matches Some((k, inner)) ==> {
                &&& k < variants_of(types, self.generator).len()
                &&& !variants_of(types, self.generator)[k as int].metadata.hidden
                &&& inner is None == variants_of(types, self.generator)[k as int].kind is Empty
                &&& inner matches Some(b) ==> b@.wf(types) && self.value_state() == Some(
                    (k, Some(Box::new(b@))),
                )
                &&& inner is None ==> self.value_state() == Some((k, None::<Box<BuilderView>>))
            },
            self.value is None ==> self.value_state() is None,
    {
    }

    /// The segments by which the path can be extended.
    pub fn get_subfields(&self, types: &Types, current_fields: &[String]) -> (r: Vec<String>)
        requires
            self@.wf(types),
            self@.valid_path(types, texts(current_fields@)),
        ensures
            texts(r@) == self@.subfields(types, texts(current_fields@)),
        decreases self,
    {
        proof {
            self.lemma_value_wf(types);
        }
        if current_fields.len() == 0 {
            let variants = types.enum_variants(self.generator);
            let mut res: Vec<String> = Vec::new();
            assert(texts(res@) =~= variant_idents(types, self.generator, 0));
            let mut k: usize = 0;
            while k < variants.len()
                invariant
                    k <= variants@.len(),
                    variants@ == variants_of(types, self.generator),
                    texts(res@) == variant_idents(types, self.generator, k as int),
                decreases variants@.len() - k,
            {
                let ghost before = res@;
                if !variants[k].metadata.hidden && !variants[k].kind.is_empty() {
                    res.push(copy_string(&variants[k].ident));
                    assert(texts(res@) =~= texts(before).push(variants@[k as int].ident@));
                }
                k = k + 1;
            }
            res
        } else {
            let (field, rest) = split_path(current_fields);
            match &self.value {
                Some((_, Some(inner))) => inner.get_subfields(types, rest),
                _ => vstd::pervasive::unreached(),
            }
        }
    }

    /// The options to show to the user at a path.
    pub fn get_options(&self, types: &Types, current_fields: &[String]) -> (r: Options)
        requires
            self@.wf(types),
            self@.valid_path(types, texts(current_fields@)),
        ensures
            r@ == self@.options(types, texts(current_fields@)),
        decreases self,
    {
        let ghost value = self.value_state();
        proof {
            self.lemma_value_wf(types);
        }
        if current_fields.len() == 0 {
            let variants = types.enum_variants(self.generator);
            // the variant in use, if the builder of its fields holds no value yet
            let pending: Option<usize> = match &self.value {
                Some((used, Some(inner))) => if inner.get_value_any(types).is_none() {
                    Some(*used)
                } else {
                    None
                },
                _ => None,
            };
            let mut choices: Vec<Choice> = Vec::new();
            assert(choice_views(choices@) =~= variant_choices(types, self.generator, value, 0));
            let mut k: usize = 0;
            while k < variants.len()
                invariant
                    k <= variants@.len(),
                    variants@ == variants_of(types, self.generator),
                    forall|i: int|
                        (pending matches Some(used) && used == i) == variant_needs_action(
                            types,
                            value,
                            i,
                        ),
                    choice_views(choices@) == variant_choices(
                        types,
                        self.generator,
                        value,
                        k as int,
                    ),
                decreases variants@.len() - k,
            {
                let ghost before = choices@;
                if !variants[k].metadata.hidden {
                    let needs_action = match pending {
                        Some(used) => used == k,
                        None => false,
                    };
                    let choice = Choice {
                        choice_id: copy_string(&variants[k].ident),
                        text: copy_string(variants[k].actual_name()),
                        needs_action,
                    };
                    let ghost added = choice@;
                    choices.push(choice);
                    assert(choice_views(choices@) =~= choice_views(before).push(added));
                }
                k = k + 1;
            }
            make_options(copy_string(&self.prompt), false, choices)
        } else {
            let (field, rest) = split_path(current_fields);
            match &self.value {
                Some((_, Some(inner))) => inner.get_options(types, rest),
                _ => vstd::pervasive::unreached(),
            }
        }
    }
}

/// The content of an optional value.
pub open spec fn opt_value(v: Option<Value>) -> Option<ValueView> {
    match v {
        Some(v) => Some(v@),
        None => None,
    }
}

/// A copy of an optional string.
fn copy_opt_string(s: &Option<String>) -> (r: Option<String>)
    ensures
        opt_text(r) == opt_text(*s),
{
    match s {
        Some(s) => Some(copy_string(s)),
        None => None,
    }
}

/// A copy of an optional value.
fn copy_opt_value(v: &Option<Value>) -> (r: Option<Value>)
    ensures
        opt_value(r) == opt_value(*v),
{
    match v {
        Some(v) => Some(v.copy()),
        None => None,
    }
}

/// The prompt to show: the one that was asked for, else the usual one.
fn prompt_or_usual(prompt: Option<String>, usual: &str) -> (r: String)
    ensures
        r@ == or_text(opt_text(prompt), usual@),
{
    match prompt {
        Some(p) => p,
        None => new_string(usual),
    }
}

/// The first prompt that was asked for, if any.
fn prompt_or_else(first: Option<String>, second: &Option<String>) -> (r: Option<String>)
    ensures
        opt_text(r) == or_else(opt_text(first), opt_text(*second)),
{
    match first {
        Some(p) => Some(p),
        None => copy_opt_string(second),
    }
}

impl PlainBuilder {
    /// Make a new instance of the builder. The default value is taken if it is of the plain
    /// type that is built.
    pub fn new(kind: Plain, config: BuildableValueConfig) -> (r: PlainBuilder)
        ensures
            forall|types: &Types|
                types.wf() ==> r@ == #[trigger] fresh(
                    types,
                    &Type::Plain(kind),
                    opt_value(config.default),
                    opt_text(config.prompt),
                ),
            forall|types: &Types| #[trigger] r@.wf(types),
    {
        let value = match config.default {
            Some(v) => match v.plain() {
                Some(k) => if k == kind {
                    Some(v)
                } else {
                    None
                },
                None => None,
            },
            None => None,
        };
        let prompt = match config.prompt {
            Some(p) => p,
            None => kind.default_query(),
        };
        PlainBuilder { kind, value, prompt }
    }
}

impl BoolBuilder {
    /// Make a new instance of the builder. The default value is taken if it is a boolean.
    pub fn new(config: BuildableValueConfig) -> (r: BoolBuilder)
        ensures
            forall|types: &Types|
                types.wf() ==> r@ == #[trigger] fresh(
                    types,
                    &Type::Bool,
                    opt_value(config.default),
                    opt_text(config.prompt),
                ),
            forall|types: &Types| #[trigger] r@.wf(types),
    {
        let value = match config.default {
            Some(Value::Bool(b)) => Some(b),
            _ => None,
        };
        BoolBuilder { value, prompt: prompt_or_usual(config.prompt, "True or false?") }
    }
}

impl VecBuilder {
    /// Make a new instance of the builder, for a list of items of a type. The list starts
    /// without items.
    pub fn new(element: Type, config: BuildableValueConfig) -> (r: VecBuilder)
        ensures
            forall|types: &Types|
                types.wf() && element.closed(types.generators().len() as int) ==> r@
                    == #[trigger] fresh(
                    types,
                    &Type::List(Box::new(element)),
                    opt_value(config.default),
                    opt_text(config.prompt),
                ),
    {
        let r = VecBuilder {
            items: Vec::new(),
            element,
            prompt: prompt_or_usual(config.prompt, "Select an action"),
        };
        assert(r.item_states() =~= Seq::empty());
        r
    }
}

impl OptionBuilder {
    /// Make a new instance of the builder, for an optional value of a type. It starts
    /// without a value.
    pub fn new(element: Type, config: BuildableValueConfig) -> (r: OptionBuilder)
        ensures
            forall|types: &Types|
                types.wf() && element.closed(types.generators().len() as int) ==> r@
                    == #[trigger] fresh(
                    types,
                    &Type::Optional(Box::new(element)),
                    opt_value(config.default),
                    opt_text(config.prompt),
                ),
    {
        OptionBuilder {
            value: None,
            element,
            prompt: prompt_or_usual(config.prompt, "Choose an option"),
        }
    }
}

impl BoxBuilder {
    /// Make a new instance of the builder, around the builder of the boxed value.
    pub fn new(value: BuildableValue) -> (r: BoxBuilder)
        ensures
            r@ == (BuilderView::Boxed { value: Box::new(value@) }),
    {
        BoxBuilder { value: Box::new(value) }
    }
}

/// Construct a new builder of a type using the provided configuration.
pub fn new_buildable_value(types: &Types, ty: &Type, config: BuildableValueConfig) -> (r:
    BuildableValue)
    requires
        ty.closed(types.generators().len() as int),
    ensures
        r@ == fresh(types, ty, opt_value(config.default), opt_text(config.prompt)),
        r@.wf(types),
    decreases ty.rank(), 0nat, ty.height(),
{
    proof {
        use_type_invariant(types);
        lemma_fresh_wf(
            types,
            ty,
            opt_value(config.default),
            opt_text(config.prompt),
        );
    }
    match ty {
        Type::Plain(kind) => BuildableValue::Plain(PlainBuilder::new(*kind, config)),
        Type::Bool => BuildableValue::Bool(BoolBuilder::new(config)),
        Type::List(t) => BuildableValue::List(VecBuilder::new(t.copy(), config)),
        Type::Optional(t) => BuildableValue::Optional(OptionBuilder::new(t.copy(), config)),
        Type::Boxed(t) => {
            let inner = new_buildable_value(
                types,
                t,
                BuildableValueConfig { default: None, prompt: config.prompt },
            );
            BuildableValue::Boxed(BoxBuilder::new(inner))
        },
        Type::Named(i) => match types.get(*i) {
            Generator::Struct(g) => {
                proof {
                    types.lemma_fields_valid(Shape::Struct(*i));
                    lemma_fields_rank(
                        g.fields@,
                        g.fields@.len() as int,
                        types.generators().len() as int,
                        *i as int,
                        g.named_fields,
                    );
                }
                BuildableValue::Struct(StructBuilder::new(types, Shape::Struct(*i), config.prompt))
            },
            Generator::Enum(g) => BuildableValue::Enum(EnumBuilder::new(types, *i, config.prompt)),
        },
    }
}

impl StructBuilder {
    /// Make a new instance of the builder, for a struct or for the fields of a variant, with
    /// a new builder for each shown field.
    pub fn new(types: &Types, shape: Shape, prompt: Option<String>) -> (r: StructBuilder)
        requires
            types.has(shape),
        ensures
            r@ == fresh_struct(types, shape, opt_text(prompt)),
        decreases fields_rank(types.fields(shape), types.fields(shape).len() as int), 2nat, 0nat,
    {
        proof {
            use_type_invariant(types);
        }
        let described = types.shape_fields(shape);
        let named = types.shape_named(shape);
        let mut fields: Vec<Option<BuildableValue>> = Vec::new();
        let mut j: usize = 0;
        proof {
            types.lemma_fields_valid(shape);
        }
        while j < described.len()
            invariant
                j <= described@.len(),
                types.wf(),
                types.has(shape),
                described@ == types.fields(shape),
                named == types.named(shape),
                fields_valid(
                    described@,
                    types.generators().len() as int,
                    Types::position(shape),
                    types.eager(shape),
                    named,
                ),
                fields@.len() == j,
                forall|k: int|
                    0 <= k < j ==> match #[trigger] fields@[k] {
                        Some(b) => fresh_fields(types, shape, j as int)[k] == Some(b@),
                        None => fresh_fields(types, shape, j as int)[k] is None,
                    },
            decreases described@.len() - j,
        {
            proof {
                lemma_fresh_fields(types, shape, j as int);
                lemma_fresh_fields(types, shape, j as int + 1);
                assert(described@[j as int].valid(
                    types.generators().len() as int,
                    Types::position(shape),
                    types.eager(shape),
                    named,
                ));
            }
            let field = &described[j];
            if field.metadata.hidden {
                fields.push(None);
            } else {
                let prompt = if named {
                    copy_opt_string(&field.metadata.prompt)
                } else {
                    prompt_or_else(
                        copy_opt_string(&field.metadata.prompt),
                        types.shape_prompt(shape),
                    )
                };
                let config = BuildableValueConfig {
                    default: copy_opt_value(&field.metadata.default),
                    prompt,
                };
                proof {
                    lemma_fields_rank_bound(described@, j as int, described@.len() as int);
                }
                fields.push(Some(new_buildable_value(types, &field.ty, config)));
            }
            j = j + 1;
        }
        let prompt = prompt_or_usual(
            prompt_or_else(prompt, types.shape_prompt(shape)),
            "Select the field to edit",
        );
        let r = StructBuilder { shape, fields, prompt };
        proof {
            lemma_fresh_fields(types, shape, described@.len() as int);
            assert(r.field_states() =~= fresh_fields(types, shape, described@.len() as int));
        }
        r
    }
}

impl EnumBuilder {
    /// Make a new instance of the builder, for the enum at a position. It starts with the
    /// default variant of the enum, if there is one.
    pub fn new(types: &Types, generator: usize, prompt: Option<String>) -> (r: EnumBuilder)
        requires
            types.has_enum(generator),
        ensures
            r@ == fresh(types, &Type::Named(generator), None, opt_text(prompt)),
        decreases generator, 4nat, 0nat,
    {
        proof {
            use_type_invariant(types);
        }
        let variants = types.enum_variants(generator);
        let ghost g = types.generators()[generator as int]->Enum_0;
        let mut found: Option<usize> = None;
        let mut k: usize = 0;
        while k < variants.len()
            invariant
                k <= variants@.len(),
                variants@ == g.variants@,
                match found {
                    Some(i) => g.default_variant(k as int) == Some(i as int),
                    None => g.default_variant(k as int) is None,
                },
            decreases variants@.len() - k,
        {
            if variants[k].metadata.default {
                found = Some(k);
            }
            k = k + 1;
        }
        let value = match found {
            Some(k) => {
                proof {
                    g.lemma_default_variant(variants@.len() as int);
                    assert(types.generators()[generator as int].valid(
                        types.generators().len() as int,
                        generator as int,
                    ));
                    assert(g.variants@[k as int].valid(
                        types.generators().len() as int,
                        generator as int,
                    ));
                    if g.variants@[k as int].kind !is Empty {
                        types.lemma_fields_valid(Shape::Variant(generator, k));
                        lemma_fields_rank(
                            g.variants@[k as int].kind.fields(),
                            g.variants@[k as int].kind.fields().len() as int,
                            types.generators().len() as int,
                            generator as int,
                            g.variants@[k as int].kind is Named,
                        );
                    }
                }
                Some((k, EnumBuilder::new_variant(types, generator, k)))
            },
            None => None,
        };
        let own = match types.get(generator) {
            Generator::Enum(g) => &g.metadata.prompt,
            Generator::Struct(g) => &g.metadata.prompt,
        };
        EnumBuilder {
            generator,
            value,
            prompt: prompt_or_usual(prompt_or_else(prompt, own), "Select a variant"),
        }
    }

    /// A new builder for the fields of a variant: nothing for a variant without fields.
    fn new_variant(types: &Types, generator: usize, k: usize) -> (r: Option<Box<BuildableValue>>)
        requires
            types.has_enum(generator),
            k < variants_of(types, generator).len(),
        ensures
            match r {
                Some(b) => fresh_variant(types, generator, k as int) == Some(Box::new(b@)),
                None => fresh_variant(types, generator, k as int) is None,
            },
        decreases
            fields_rank(
                variants_of(types, generator)[k as int].kind.fields(),
                variants_of(types, generator)[k as int].kind.fields().len() as int,
            ),
            3nat,
            0nat,
    {
        proof {
            use_type_invariant(types);
        }
        let variant = &types.enum_variants(generator)[k];
        if variant.kind.is_empty() {
            None
        } else {
            let inner = StructBuilder::new(
                types,
                Shape::Variant(generator, k),
                copy_opt_string(&variant.metadata.prompt),
            );
            Some(Box::new(BuildableValue::Struct(inner)))
        }
    }
}

/// What `apply` promises: the builder is in the state that the input leads to, or the input
/// is refused for the reason given and the builder is as it was.
pub open spec fn applied(
    before: BuilderView,
    after: BuilderView,
    expected: Result<BuilderView, ChooseErrorView>,
    r: Result<(), ChooseError>,
) -> bool {
    match expected {
        Ok(next) => r is Ok && after == next,
        Err(e) => r matches Err(err) && err@ == e && after == before,
    }
}

impl BuildableValue {
    /// Try to change the inner value using the provided input, applied at a path.
    pub fn apply(&mut self, types: &Types, data: Input, current_fields: &[String]) -> (r: Result<
        (),
        ChooseError,
    >)
        requires
            old(self)@.wf(types),
            old(self)@.accepts_path(types, texts(current_fields@)),
        ensures
            applied(
                old(self)@,
                final(self)@,
                old(self)@.apply(types, data@, texts(current_fields@)),
                r,
            ),
            final(self)@.wf(types),
        decreases *old(self),
    {
        proof {
            use_type_invariant(types);
        }
        match self {
            BuildableValue::Plain(b) => b.apply(data, current_fields),
            BuildableValue::Bool(b) => b.apply(data, current_fields),
            BuildableValue::List(b) => b.apply(types, data, current_fields),
            BuildableValue::Optional(b) => b.apply(types, data, current_fields),
            BuildableValue::Boxed(b) => b.apply(types, data, current_fields),
            BuildableValue::Struct(b) => b.apply(types, data, current_fields),
            BuildableValue::Enum(b) => b.apply(types, data, current_fields),
        }
    }
}

impl PlainBuilder {
    /// Try to change the inner value: the text is read as a value of the plain type.
    pub fn apply(&mut self, data: Input, current_fields: &[String]) -> (r: Result<(), ChooseError>)
        requires
            current_fields@.len() == 0,
        ensures
            forall|types: &Types|
                applied(
                    old(self)@,
                    final(self)@,
                    #[trigger] old(self)@.apply(types, data@, texts(current_fields@)),
                    r,
                ),
            forall|types: &Types| old(self)@.wf(types) ==> #[trigger] final(self)@.wf(types),
    {
        match data {
            Input::Text(text) => {
                proof {
                    lemma_parse_plain(self.kind, text@);
                }
                match self.kind.read(text.as_str()) {
                    Ok(v) => {
                        self.value = Some(v);
                        Ok(())
                    },
                    Err(error) => Err(ChooseError::InvalidText { error }),
                }
            },
            Input::Choice(_) => Err(ChooseError::UnexpectedChoice),
        }
    }
}

impl BoolBuilder {
    /// Try to change the inner value: the choice is `true` or `false`.
    pub fn apply(&mut self, data: Input, current_fields: &[String]) -> (r: Result<(), ChooseError>)
        requires
            current_fields@.len() == 0,
        ensures
            forall|types: &Types|
                applied(
                    old(self)@,
                    final(self)@,
                    #[trigger] old(self)@.apply(types, data@, texts(current_fields@)),
                    r,
                ),
            forall|types: &Types| #[trigger] final(self)@.wf(types),
    {
        match data {
            Input::Choice(data) => {
                if str_eq(data.as_str(), "true") {
                    self.value = Some(true);
                } else if str_eq(data.as_str(), "false") {
                    self.value = Some(false);
                } else {
                    return Err(ChooseError::UnexpectedChoice);
                }
            },
            Input::Text(_) => {
                return Err(ChooseError::UnexpectedText);
            },
        }
        Ok(())
    }
}

impl VecBuilder {
    /// Try to change the list, or one of its items, using the provided input.
    pub fn apply(&mut self, types: &Types, data: Input, current_fields: &[String]) -> (r: Result<
        (),
        ChooseError,
    >)
        requires
            old(self)@.wf(types),
            old(self)@.accepts_path(types, texts(current_fields@)),
        ensures
            applied(
                old(self)@,
                final(self)@,
                old(self)@.apply(types, data@, texts(current_fields@)),
                r,
            ),
            final(self)@.wf(types),
        decreases *old(self),
    {
        let ghost before = self.item_states();
        proof {
            use_type_invariant(types);
            self.lemma_items_wf(types);
            lemma_apply_wf(self@, types, data@, texts(current_fields@));
        }
        // main menu
        if current_fields.len() == 0 {
            match data {
                Input::Choice(data) => {
                    if str_eq(data.as_str(), NEW_ID) {
                        let item = new_buildable_value(
                            types,
                            &self.element,
                            BuildableValueConfig { default: None, prompt: None },
                        );
                        self.items.push(item);
                        assert(self.item_states() =~= before.push(item@));
                    } else if str_eq(data.as_str(), REMOVE_ID) {
                        if self.items.len() == 0 {
                            return Err(ChooseError::UnexpectedChoice);
                        }
                    } else {
                        // check that the inserted index is valid
                        if index_chosen(self.items.len(), data.as_str()).is_none() {
                            return Err(ChooseError::UnexpectedChoice);
                        }
                    }
                },
                Input::Text(_) => {
                    return Err(ChooseError::UnexpectedText);
                },
            }
            Ok(())
        } else {
            let (field, rest) = split_path(current_fields);
            if str_eq(field.as_str(), REMOVE_ID) {
                match data {
                    Input::Choice(choice) => {
                        match index_chosen(self.items.len(), choice.as_str()) {
                            Some(index) => {
                                self.items.remove(index);
                                assert(self.item_states() =~= before.remove(index as int));
                            },
                            None => {
                                return Err(ChooseError::UnexpectedChoice);
                            },
                        }
                    },
                    Input::Text(_) => {
                        return Err(ChooseError::UnexpectedText);
                    },
                }
                Ok(())
            } else {
                match item_named(self.items.len(), field.as_str()) {
                    Some(index) => {
                        let r = self.items[index].apply(types, data, rest);
                        proof {
                            if r is Ok {
                                assert(self.item_states() =~= before.update(
                                    index as int,
                                    self.items@[index as int]@,
                                ));
                            } else {
                                assert(self.item_states() =~= before);
                            }
                        }
                        r
                    },
                    None => vstd::pervasive::unreached(),
                }
            }
        }
    }
}

impl OptionBuilder {
    /// Try to change the optional value, or the value that is there, using the provided
    /// input.
    pub fn apply(&mut self, types: &Types, data: Input, current_fields: &[String]) -> (r: Result<
        (),
        ChooseError,
    >)
        requires
            old(self)@.wf(types),
            old(self)@.accepts_path(types, texts(current_fields@)),
        ensures
            applied(
                old(self)@,
                final(self)@,
                old(self)@.apply(types, data@, texts(current_fields@)),
                r,
            ),
            final(self)@.wf(types),
        decreases *old(self),
    {
        proof {
            use_type_invariant(types);
            self.lemma_value_wf(types);
            lemma_apply_wf(self@, types, data@, texts(current_fields@));
        }
        if current_fields.len() == 0 {
            match data {
                Input::Choice(data) => {
                    if self.value.is_some() {
                        if str_eq(data.as_str(), REMOVE_ID) {
                            self.value = None;
                        } else if !str_eq(data.as_str(), EDIT_ID) {
                            return Err(ChooseError::UnexpectedChoice);
                        }
                    } else {
                        if str_eq(data.as_str(), SET_ID) {
                            let inner = new_buildable_value(
                                types,
                                &self.element,
                                BuildableValueConfig { default: None, prompt: None },
                            );
                            self.value = Some(Box::new(inner));
                        } else {
                            return Err(ChooseError::UnexpectedChoice);
                        }
                    }
                },
                Input::Text(_) => {
                    return Err(ChooseError::UnexpectedText);
                },
            }
            Ok(())
        } else {
            let (field, rest) = split_path(current_fields);
            match &mut self.value {
                Some(inner) => inner.apply(types, data, rest),
                None => vstd::pervasive::unreached(),
            }
        }
    }
}

impl BoxBuilder {
    /// Try to change the boxed value using the provided input.
    pub fn apply(&mut self, types: &Types, data: Input, current_fields: &[String]) -> (r: Result<
        (),
        ChooseError,
    >)
        requires
            old(self)@.wf(types),
            old(self)@.accepts_path(types, texts(current_fields@)),
        ensures
            applied(
                old(self)@,
                final(self)@,
                old(self)@.apply(types, data@, texts(current_fields@)),
                r,
            ),
            final(self)@.wf(types),
        decreases *old(self),
    {
        proof {
            use_type_invariant(types);
        }
        self.value.apply(types, data, current_fields)
    }
}

impl StructBuilder {
    /// Try to change one of the fields using the provided input. At the struct itself the
    /// input is the choice of a field: it changes nothing and is checked only.
    pub fn apply(&mut self, types: &Types, data: Input, current_fields: &[String]) -> (r: Result<
        (),
        ChooseError,
    >)
        requires
            old(self)@.wf(types),
            old(self)@.accepts_path(types, texts(current_fields@)),
        ensures
            applied(
                old(self)@,
                final(self)@,
                old(self)@.apply(types, data@, texts(current_fields@)),
                r,
            ),
            final(self)@.wf(types),
        decreases *old(self),
    {
        let ghost before = self.field_states();
        proof {
            use_type_invariant(types);
            self.lemma_fields_wf(types);
            lemma_apply_wf(self@, types, data@, texts(current_fields@));
        }
        let described = types.shape_fields(self.shape);
        if !types.shape_named(self.shape) {
            if self.fields.len() > 0 {
                match &mut self.fields[0] {
                    Some(b) => {
                        let r = b.apply(types, data, current_fields);
                        proof {
                            if r is Ok {
                                assert(self.field_states() =~= before.update(
                                    0,
                                    Some(self.fields@[0]->Some_0@),
                                ));
                            } else {
                                assert(self.field_states() =~= before);
                            }
                        }
                        return r;
                    },
                    None => {},
                }
            }
            vstd::pervasive::unreached()
        } else if current_fields.len() == 0 {
            match data {
                Input::Choice(data) => match field_named(described, data.as_str()) {
                    Some(_) => Ok(()),
                    None => Err(ChooseError::UnexpectedChoice),
                },
                Input::Text(_) => Err(ChooseError::UnexpectedText),
            }
        } else {
            let (field, rest) = split_path(current_fields);
            match field_named(described, field.as_str()) {
                Some(j) => match &mut self.fields[j] {
                    Some(b) => {
                        let r = b.apply(types, data, rest);
                        proof {
                            if r is Ok {
                                assert(self.field_states() =~= before.update(
                                    j as int,
                                    Some(self.fields@[j as int]->Some_0@),
                                ));
                            } else {
                                assert(self.field_states() =~= before);
                            }
                        }
                        r
                    },
                    None => vstd::pervasive::unreached(),
                },
                None => Err(ChooseError::UnexpectedChoice),
            }
        }
    }
}

impl EnumBuilder {
    /// Try to change the enum using the provided input. At the enum itself the input selects
    /// the variant to use; selecting the variant in use changes nothing.
    pub fn apply(&mut self, types: &Types, data: Input, current_fields: &[String]) -> (r: Result<
        (),
        ChooseError,
    >)
        requires
            old(self)@.wf(types),
            old(self)@.accepts_path(types, texts(current_fields@)),
        ensures
            applied(
                old(self)@,
                final(self)@,
                old(self)@.apply(types, data@, texts(current_fields@)),
                r,
            ),
            final(self)@.wf(types),
        decreases *old(self),
    {
        proof {
            use_type_invariant(types);
            self.lemma_value_wf(types);
            lemma_apply_wf(self@, types, data@, texts(current_fields@));
        }
        // select variant menu
        if current_fields.len() == 0 {
            match data {
                Input::Choice(data) => {
                    match variant_named(types, self.generator, data.as_str()) {
                        Some(k) => {
                            // do not overwrite if already selected
                            let selected = match &self.value {
                                Some((used, _)) => *used == k,
                                None => false,
                            };
                            if !selected {
                                self.value = Some(
                                    (k, EnumBuilder::new_variant(types, self.generator, k)),
                                );
                            }
                            Ok(())
                        },
                        None => Err(ChooseError::UnexpectedChoice),
                    }
                },
                Input::Text(_) => Err(ChooseError::UnexpectedText),
            }
        } else {
            let (field, rest) = split_path(current_fields);
            match &mut self.value {
                Some((_, Some(inner))) => inner.apply(types, data, rest),
                _ => vstd::pervasive::unreached(),
            }
        }
    }
}

impl BuildableValue {
    /// No list in a builder has more items than can be counted.
    pub proof fn lemma_countable(&self)
        ensures
            self@.countable(),
        decreases self, 1nat,
    {
        match self {
            BuildableValue::Plain(b) => {
                assert(self@ is Plain);
            },
            BuildableValue::Bool(b) => {
                assert(self@ is Bool);
            },
            BuildableValue::List(b) => {
                b.lemma_countable();
            },
            BuildableValue::Optional(b) => {
                if let Some(inner) = b.value {
                    inner.lemma_countable();
                }
            },
            BuildableValue::Boxed(b) => {
                b.value.lemma_countable();
            },
            BuildableValue::Struct(b) => {
                b.lemma_countable();
            },
            BuildableValue::Enum(b) => {
                if let Some((k, Some(inner))) = b.value {
                    inner.lemma_countable();
                }
                assert(b.state() matches BuilderView::Enum { value, .. } && value
                    == b.value_state());
            },
        }
    }
}

impl VecBuilder {
    /// No list in a builder has more items than can be counted.
    proof fn lemma_countable(&self)
        ensures
            self@.countable(),
        decreases self, 0nat,
    {
        assert(self@->items == self.item_states());
        assert(self.items@.len() == self.items.len());
        assert forall|i: int| 0 <= i < self.items@.len() implies (
        #[trigger] self.item_states()[i]).countable() by {
            self.items@[i].lemma_countable();
        }
    }
}

impl StructBuilder {
    /// No list in a builder has more items than can be counted.
    proof fn lemma_countable(&self)
        ensures
            self@.countable(),
        decreases self, 0nat,
    {
        assert(self@->fields == self.field_states());
        assert forall|j: int| 0 <= j < self.fields@.len() implies (
        #[trigger] self.field_states()[j] matches Some(b) ==> b.countable()) by {
            if let Some(b) = self.fields@[j] {
                b.lemma_countable();
            }
        }
    }
}

} // verus!
