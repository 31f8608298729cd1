//! The description of the types that can be built.
//!
//! A plain type, a boolean, a list, an optional value and a boxed value need no description
//! of their own. A struct or an enum is described by a generator, which knows how to make
//! its builder. The generators of all the structs and enums in play are held together in a
//! [`Types`], where each is named by its position, so that they can refer to one another and
//! to themselves.

use crate::text::{new_string, str_eq};
use crate::value::{Plain, Value, ValueView};
use crate::{BACK_ID, FINALIZE_ID};
use vstd::prelude::*;

verus! {

/// A type that can be built.
#[derive(Debug, PartialEq, Eq)]
pub enum Type {
    /// A plain type, whose values are typed as text.
    Plain(Plain),
    /// A boolean, chosen between `true` and `false`.
    Bool,
    /// A list of items of one type.
    List(Box<Type>),
    /// A value of a type, or nothing.
    Optional(Box<Type>),
    /// A value of a type, behind a box.
    Boxed(Box<Type>),
    /// The struct or the enum at this position in the [`Types`].
    Named(usize),
}

/// The metadata of a struct.
#[derive(Debug, PartialEq, Eq)]
pub struct StructMetadata {
    /// The prompt to use for this struct's main menu.
    pub prompt: Option<String>,
    /// Different name to use in the tree structure.
    pub rename: Option<String>,
}

/// The metadata of a field.
#[derive(Debug, PartialEq, Eq)]
pub struct FieldMetadata {
    /// The default value for this field.
    pub default: Option<Value>,
    /// The prompt to use for this field.
    pub prompt: Option<String>,
    /// Different name to use in the tree structure.
    pub rename: Option<String>,
    /// Whether this field is hidden: never shown, never asked for, and always of its
    /// default value.
    pub hidden: bool,
}

/// The information about a field of a struct or of a variant.
#[derive(Debug, PartialEq, Eq)]
pub struct StructField {
    /// The identifier of the field. It is not used if the field is unnamed.
    pub ident: String,
    /// The type of the field.
    pub ty: Type,
    /// The metadata associated with the field.
    pub metadata: FieldMetadata,
}

/// The description of a struct, from which its builder is made.
#[derive(Debug, PartialEq, Eq)]
pub struct StructGenerator {
    /// The identifier of the struct.
    pub ident: String,
    /// The list of fields of the struct.
    pub fields: Vec<StructField>,
    /// Whether the fields of this struct are named.
    pub named_fields: bool,
    /// The metadata associated with the struct.
    pub metadata: StructMetadata,
}

/// The metadata of an enum.
#[derive(Debug, PartialEq, Eq)]
pub struct EnumMetadata {
    /// The prompt to use for this enum's main menu.
    pub prompt: Option<String>,
}

/// The metadata of a variant.
#[derive(Debug, PartialEq, Eq)]
pub struct VariantMetadata {
    /// The prompt to use for this variant.
    pub prompt: Option<String>,
    /// Different name to use in the tree structure.
    pub rename: Option<String>,
    /// Whether this variant is hidden.
    pub hidden: bool,
    /// Whether this is the default variant.
    pub default: bool,
}

/// The information about the type of variant.
#[derive(Debug, PartialEq, Eq)]
pub enum VariantKind {
    /// The variant doesn't contain any field.
    Empty,
    /// The variant contains only unnamed fields.
    Unnamed(Vec<StructField>),
    /// The variant contains only named fields.
    Named(Vec<StructField>),
}

/// The information about a variant of an enum.
#[derive(Debug, PartialEq, Eq)]
pub struct EnumVariant {
    /// The identifier of the variant.
    pub ident: String,
    /// The kind of the variant.
    pub kind: VariantKind,
    /// The metadata associated with the variant.
    pub metadata: VariantMetadata,
}

/// The description of an enum, from which its builder is made.
#[derive(Debug, PartialEq, Eq)]
pub struct EnumGenerator {
    /// The identifier of the enum.
    pub ident: String,
    /// The list of the variants of the enum.
    pub variants: Vec<EnumVariant>,
    /// The metadata associated with the enum.
    pub metadata: EnumMetadata,
}

/// The description of a struct or of an enum.
#[derive(Debug, PartialEq, Eq)]
pub enum Generator {
    Struct(StructGenerator),
    Enum(EnumGenerator),
}

/// What has fields: a struct, or a variant of an enum. Both are named by their position.
#[derive(Debug, Clone, Copy, PartialEq, Eq, Structural)]
pub enum Shape {
    /// The struct at this position in the [`Types`].
    Struct(usize),
    /// A variant, by its position among the variants of the enum at a position in the
    /// [`Types`].
    Variant(usize, usize),
}

/// The generators of the structs and enums in play. `Type::Named(i)` stands for the one at
/// position `i`.
#[derive(Debug, PartialEq, Eq)]
pub struct Types {
    generators: Vec<Generator>,
}

/// The text of an optional string: nothing where there is none.
pub open spec fn opt_text(s: Option<String>) -> Option<Seq<char>> {
    match s {
        Some(s) => Some(s@),
        None => None,
    }
}

/// Whether an identifier is one that the builder keeps for its own choices.
pub open spec fn reserved(ident: Seq<char>) -> bool {
    ident == FINALIZE_ID@ || ident == BACK_ID@
}

impl Type {
    /// Whether every struct and enum that the type mentions is among the first `n`.
    pub open spec fn closed(&self, n: int) -> bool
        decreases self,
    {
        match self {
            Type::List(t) => t.closed(n),
            Type::Optional(t) => t.closed(n),
            Type::Boxed(t) => t.closed(n),
            Type::Named(i) => i < n,
            _ => true,
        }
    }

    /// A bound on the positions of the structs and enums whose builders are made together
    /// with the builder of this type: the items of a list and the content of an optional
    /// value are made later, what is behind a box at once.
    pub open spec fn rank(&self) -> nat
        decreases self,
    {
        match self {
            Type::Boxed(t) => t.rank(),
            Type::Named(i) => (i + 1) as nat,
            _ => 0,
        }
    }

    /// The number of types nested in the type.
    pub open spec fn height(&self) -> nat
        decreases self,
    {
        match self {
            Type::List(t) => t.height() + 1,
            Type::Optional(t) => t.height() + 1,
            Type::Boxed(t) => t.height() + 1,
            _ => 0,
        }
    }

    /// Whether a value can be the default value of a shown field of this type: the type is
    /// a plain type or the boolean, and the value is of it.
    pub open spec fn takes(&self, value: ValueView) -> bool {
        match self {
            Type::Plain(kind) => value.plain() == Some(*kind),
            Type::Bool => value is Bool,
            _ => false,
        }
    }

    /// Whether a value can be the default value of a shown field of this type.
    pub fn accepts(&self, value: &Value) -> (r: bool)
        ensures
            r == self.takes(value@),
    {
        match self {
            Type::Plain(kind) => match value.plain() {
                Some(k) => k == *kind,
                None => false,
            },
            Type::Bool => match value {
                Value::Bool(_) => true,
                _ => false,
            },
            _ => false,
        }
    }

    /// A copy of the type.
    pub fn copy(&self) -> (r: Type)
        ensures
            r == *self,
        decreases self,
    {
        match self {
            Type::Plain(p) => Type::Plain(*p),
            Type::Bool => Type::Bool,
            Type::List(t) => Type::List(Box::new(t.copy())),
            Type::Optional(t) => Type::Optional(Box::new(t.copy())),
            Type::Boxed(t) => Type::Boxed(Box::new(t.copy())),
            Type::Named(i) => Type::Named(*i),
        }
    }

    /// Whether every struct and enum that the type mentions is among the first `n`.
    pub fn is_closed(&self, n: usize) -> (r: bool)
        ensures
            r == self.closed(n as int),
        decreases self,
    {
        match self {
            Type::List(t) => t.is_closed(n),
            Type::Optional(t) => t.is_closed(n),
            Type::Boxed(t) => t.is_closed(n),
            Type::Named(i) => *i < n,
            _ => true,
        }
    }

    /// Whether the rank of the type is at most `bound`.
    fn rank_within(&self, bound: usize) -> (r: bool)
        ensures
            r == (self.rank() <= bound),
        decreases self,
    {
        match self {
            Type::Boxed(t) => t.rank_within(bound),
            Type::Named(i) => *i < bound,
            _ => true,
        }
    }
}

impl Clone for Type {
    fn clone(&self) -> (r: Self)
        ensures
            r == *self,
    {
        self.copy()
    }
}

impl StructField {
    /// The name under which the field is shown: the one it was renamed to, else its
    /// identifier.
    pub open spec fn name(&self) -> Seq<char> {
        match self.metadata.rename {
            Some(name) => name@,
            None => self.ident@,
        }
    }

    /// The name under which the field is shown.
    pub fn actual_name(&self) -> (r: &String)
        ensures
            r@ == self.name(),
    {
        match &self.metadata.rename {
            Some(name) => name,
            None => &self.ident,
        }
    }

    /// Whether the field can stand at position `i` of a list of `n` generators. A hidden
    /// field has a default value. The type of a shown field mentions no generator beyond the
    /// list; where its builder is made together with that of generator `i` (`eager`), it
    /// needs only the builders of generators before `i`; and its default value, if it has
    /// one, is a value of its type, which is a plain type or the boolean. A named field is
    /// not called like a choice that the builder keeps for itself. An unnamed field is shown.
    pub open spec fn valid(&self, n: int, i: int, eager: bool, named: bool) -> bool {
        &&& self.metadata.hidden ==> self.metadata.default is Some
        &&& !self.metadata.hidden ==> self.ty.closed(n)
        &&& !self.metadata.hidden && eager ==> self.ty.rank() <= i
        &&& !self.metadata.hidden ==> (self.metadata.default matches Some(v) ==> self.ty.takes(v@))
        &&& named ==> !reserved(self.ident@)
        &&& !named ==> !self.metadata.hidden
    }

    /// Whether the field can stand at position `i` of a list of `n` generators.
    fn is_valid(&self, n: usize, i: usize, eager: bool, named: bool) -> (r: bool)
        ensures
            r == self.valid(n as int, i as int, eager, named),
    {
        if self.metadata.hidden {
            if self.metadata.default.is_none() || !named {
                return false;
            }
        } else {
            if !self.ty.is_closed(n) {
                return false;
            }
            if eager && !self.ty.rank_within(i) {
                return false;
            }
            match &self.metadata.default {
                Some(v) => {
                    if !self.ty.accepts(v) {
                        return false;
                    }
                },
                None => {},
            }
        }
        !named || !is_reserved(self.ident.as_str())
    }
}

/// Whether an identifier is one that the builder keeps for its own choices.
pub fn is_reserved(ident: &str) -> (r: bool)
    ensures
        r == reserved(ident@),
{
    str_eq(ident, FINALIZE_ID) || str_eq(ident, BACK_ID)
}

/// Whether a list of fields can stand at position `i` of a list of `n` generators.
pub open spec fn fields_valid(fields: Seq<StructField>, n: int, i: int, eager: bool, named: bool)
    -> bool {
    &&& forall|j: int| 0 <= j < fields.len() ==> (#[trigger] fields[j]).valid(n, i, eager, named)
    &&& !named ==> fields.len() == 1
    &&& named ==> fields.len() >= 1 && fields_distinct(fields)
}

/// Whether no two shown fields have the same identifier.
pub open spec fn fields_distinct(fields: Seq<StructField>) -> bool {
    forall|a: int, b: int|
        #![trigger fields[a], fields[b]]
        0 <= a < b < fields.len() && !fields[a].metadata.hidden && !fields[b].metadata.hidden
            ==> fields[a].ident@ != fields[b].ident@
}

/// Whether no two variants that are not hidden have the same identifier.
pub open spec fn variants_distinct(variants: Seq<EnumVariant>) -> bool {
    forall|a: int, b: int|
        #![trigger variants[a], variants[b]]
        0 <= a < b < variants.len() && !variants[a].metadata.hidden && !variants[b].metadata.hidden
            ==> variants[a].ident@ != variants[b].ident@
}

/// The number of the first `n` variants that are not hidden.
pub open spec fn shown_variants(variants: Seq<EnumVariant>, n: int) -> nat
    decreases n,
{
    if n <= 0 || n > variants.len() {
        0
    } else if variants[n - 1].metadata.hidden {
        shown_variants(variants, n - 1)
    } else {
        shown_variants(variants, n - 1) + 1
    }
}

/// The number of the first `n` variants that are marked as the default.
pub open spec fn default_variants(variants: Seq<EnumVariant>, n: int) -> nat
    decreases n,
{
    if n <= 0 || n > variants.len() {
        0
    } else if variants[n - 1].metadata.default {
        default_variants(variants, n - 1) + 1
    } else {
        default_variants(variants, n - 1)
    }
}

/// The number of variants that are not hidden, and the number of those that are marked as
/// the default.
fn count_variants(variants: &Vec<EnumVariant>) -> (r: (usize, usize))
    ensures
        r.0 == shown_variants(variants@, variants@.len() as int),
        r.1 == default_variants(variants@, variants@.len() as int),
{
    let mut shown: usize = 0;
    let mut defaults: usize = 0;
    let mut k: usize = 0;
    while k < variants.len()
        invariant
            k <= variants@.len(),
            shown == shown_variants(variants@, k as int),
            defaults == default_variants(variants@, k as int),
            shown <= k,
            defaults <= k,
        decreases variants@.len() - k,
    {
        if !variants[k].metadata.hidden {
            shown = shown + 1;
        }
        if variants[k].metadata.default {
            defaults = defaults + 1;
        }
        k = k + 1;
    }
    (shown, defaults)
}

/// Whether no two shown fields have the same identifier.
fn are_fields_distinct(fields: &Vec<StructField>) -> (r: bool)
    ensures
        r == fields_distinct(fields@),
{
    let mut b: usize = 0;
    while b < fields.len()
        invariant
            b <= fields@.len(),
            forall|x: int, y: int|
                #![trigger fields@[x], fields@[y]]
                0 <= x < y < b && !fields@[x].metadata.hidden && !fields@[y].metadata.hidden
                    ==> fields@[x].ident@ != fields@[y].ident@,
        decreases fields@.len() - b,
    {
        if !fields[b].metadata.hidden {
            let mut a: usize = 0;
            while a < b
                invariant
                    a <= b < fields@.len(),
                    !fields@[b as int].metadata.hidden,
                    forall|x: int|
                        0 <= x < a && !(#[trigger] fields@[x]).metadata.hidden ==> fields@[x].ident@
                            != fields@[b as int].ident@,
                decreases b - a,
            {
                if !fields[a].metadata.hidden && str_eq(
                    fields[a].ident.as_str(),
                    fields[b].ident.as_str(),
                ) {
                    return false;
                }
                a = a + 1;
            }
        }
        b = b + 1;
    }
    true
}

/// Whether no two variants that are not hidden have the same identifier.
fn are_variants_distinct(variants: &Vec<EnumVariant>) -> (r: bool)
    ensures
        r == variants_distinct(variants@),
{
    let mut b: usize = 0;
    while b < variants.len()
        invariant
            b <= variants@.len(),
            forall|x: int, y: int|
                #![trigger variants@[x], variants@[y]]
                0 <= x < y < b && !variants@[x].metadata.hidden && !variants@[y].metadata.hidden
                    ==> variants@[x].ident@ != variants@[y].ident@,
        decreases variants@.len() - b,
    {
        if !variants[b].metadata.hidden {
            let mut a: usize = 0;
            while a < b
                invariant
                    a <= b < variants@.len(),
                    !variants@[b as int].metadata.hidden,
                    forall|x: int|
                        0 <= x < a && !(#[trigger] variants@[x]).metadata.hidden
                            ==> variants@[x].ident@ != variants@[b as int].ident@,
                decreases b - a,
            {
                if !variants[a].metadata.hidden && str_eq(
                    variants[a].ident.as_str(),
                    variants[b].ident.as_str(),
                ) {
                    return false;
                }
                a = a + 1;
            }
        }
        b = b + 1;
    }
    true
}

/// Whether a list of fields can stand at position `i` of a list of `n` generators.
fn are_fields_valid(fields: &Vec<StructField>, n: usize, i: usize, eager: bool, named: bool) -> (r:
    bool)
    ensures
        r == fields_valid(fields@, n as int, i as int, eager, named),
{
    if !named && fields.len() != 1 {
        return false;
    }
    if named && (fields.len() == 0 || !are_fields_distinct(fields)) {
        return false;
    }
    let mut j: usize = 0;
    while j < fields.len()
        invariant
            j <= fields@.len(),
            !named ==> fields@.len() == 1,
            named ==> fields@.len() >= 1 && fields_distinct(fields@),
            forall|k: int|
                0 <= k < j ==> (#[trigger] fields@[k]).valid(n as int, i as int, eager, named),
        decreases fields@.len() - j,
    {
        if !fields[j].is_valid(n, i, eager, named) {
            return false;
        }
        j = j + 1;
    }
    true
}

impl VariantKind {
    /// The fields of a variant of this kind.
    pub open spec fn fields(&self) -> Seq<StructField> {
        match self {
            VariantKind::Empty => Seq::empty(),
            VariantKind::Unnamed(fields) => fields@,
            VariantKind::Named(fields) => fields@,
        }
    }

    /// Check if this is `VariantKind::Empty`.
    pub fn is_empty(&self) -> (r: bool)
        ensures
            r == (self is Empty),
    {
        match self {
            VariantKind::Empty => true,
            _ => false,
        }
    }
}

impl EnumVariant {
    /// The name under which the variant is shown: the one it was renamed to, else its
    /// identifier.
    pub open spec fn name(&self) -> Seq<char> {
        match self.metadata.rename {
            Some(name) => name@,
            None => self.ident@,
        }
    }

    /// The name under which the variant is shown.
    pub fn actual_name(&self) -> (r: &String)
        ensures
            r@ == self.name(),
    {
        match &self.metadata.rename {
            Some(name) => name,
            None => &self.ident,
        }
    }

    /// Whether the variant can stand in the enum at position `i` of a list of `n`
    /// generators. A variant is not both hidden and the default: a hidden variant is never
    /// the one in use. A variant without fields has no prompt, since it has no menu. The
    /// builders of the fields of the default variant are made with the builder of the enum.
    pub open spec fn valid(&self, n: int, i: int) -> bool {
        &&& !reserved(self.ident@)
        &&& !(self.metadata.hidden && self.metadata.default)
        &&& self.kind is Empty ==> self.metadata.prompt is None
        &&& self.kind !is Empty ==> fields_valid(
            self.kind.fields(),
            n,
            i,
            self.metadata.default,
            self.kind is Named,
        )
    }

    /// Whether the variant can stand in the enum at position `i` of a list of `n`
    /// generators.
    fn is_valid(&self, n: usize, i: usize) -> (r: bool)
        ensures
            r == self.valid(n as int, i as int),
    {
        if is_reserved(self.ident.as_str()) {
            return false;
        }
        if self.metadata.hidden && self.metadata.default {
            return false;
        }
        match &self.kind {
            VariantKind::Empty => self.metadata.prompt.is_none(),
            VariantKind::Unnamed(fields) => are_fields_valid(
                fields,
                n,
                i,
                self.metadata.default,
                false,
            ),
            VariantKind::Named(fields) => are_fields_valid(
                fields,
                n,
                i,
                self.metadata.default,
                true,
            ),
        }
    }
}

impl StructGenerator {
    /// The name under which the struct is shown: the one it was renamed to, else its
    /// identifier.
    pub open spec fn name(&self) -> Seq<char> {
        match self.metadata.rename {
            Some(name) => name@,
            None => self.ident@,
        }
    }

    /// The name under which the struct is shown.
    pub fn actual_name(&self) -> (r: &String)
        ensures
            r@ == self.name(),
    {
        match &self.metadata.rename {
            Some(name) => name,
            None => &self.ident,
        }
    }

    /// Whether the fields of the struct are named.
    pub fn is_named(&self) -> (r: bool)
        ensures
            r == self.named_fields,
    {
        self.named_fields
    }

    /// Whether the struct can stand at position `i` of a list of `n` generators.
    pub open spec fn valid(&self, n: int, i: int) -> bool {
        fields_valid(self.fields@, n, i, true, self.named_fields)
    }
}

impl EnumGenerator {
    /// Whether the enum can stand at position `i` of a list of `n` generators.
    pub open spec fn valid(&self, n: int, i: int) -> bool {
        &&& forall|k: int|
            0 <= k < self.variants@.len() ==> (#[trigger] self.variants@[k]).valid(n, i)
        &&& variants_distinct(self.variants@)
        &&& shown_variants(self.variants@, self.variants@.len() as int) >= 1
        &&& default_variants(self.variants@, self.variants@.len() as int) <= 1
    }

    /// Whether the enum can stand at position `i` of a list of `n` generators.
    fn is_valid(&self, n: usize, i: usize) -> (r: bool)
        ensures
            r == self.valid(n as int, i as int),
    {
        if !are_variants_distinct(&self.variants) {
            return false;
        }
        let (shown, defaults) = count_variants(&self.variants);
        if shown == 0 || defaults > 1 {
            return false;
        }
        let mut k: usize = 0;
        while k < self.variants.len()
            invariant
                k <= self.variants@.len(),
                variants_distinct(self.variants@),
                shown_variants(self.variants@, self.variants@.len() as int) >= 1,
                default_variants(self.variants@, self.variants@.len() as int) <= 1,
                forall|j: int|
                    0 <= j < k ==> (#[trigger] self.variants@[j]).valid(n as int, i as int),
            decreases self.variants@.len() - k,
        {
            if !self.variants[k].is_valid(n, i) {
                return false;
            }
            k = k + 1;
        }
        true
    }

    /// The variant that a new builder of the enum starts with, among the first `n`: the one
    /// that is marked as the default.
    pub open spec fn default_variant(&self, n: int) -> Option<int>
        decreases n,
    {
        if n <= 0 {
            None
        } else if self.variants@[n - 1].metadata.default {
            Some(n - 1)
        } else {
            self.default_variant(n - 1)
        }
    }

    /// Where `default_variant` finds a variant, it is one of the enum and is marked as the
    /// default.
    pub proof fn lemma_default_variant(&self, n: int)
        requires
            n <= self.variants@.len(),
        ensures
            self.default_variant(n) matches Some(k) ==> 0 <= k < n
                && self.variants@[k].metadata.default,
        decreases n,
    {
        if n > 0 && !self.variants@[n - 1].metadata.default {
            self.lemma_default_variant(n - 1);
        }
    }
}

impl Generator {
    /// Whether the generator can stand at position `i` of a list of `n` generators.
    pub open spec fn valid(&self, n: int, i: int) -> bool {
        match self {
            Generator::Struct(g) => g.valid(n, i),
            Generator::Enum(g) => g.valid(n, i),
        }
    }

    /// Whether the generator can stand at position `i` of a list of `n` generators.
    fn is_valid(&self, n: usize, i: usize) -> (r: bool)
        ensures
            r == self.valid(n as int, i as int),
    {
        match self {
            Generator::Struct(g) => are_fields_valid(&g.fields, n, i, true, g.named_fields),
            Generator::Enum(g) => g.is_valid(n, i),
        }
    }
}

/// Whether a list of generators is consistent: each can stand at its position.
pub open spec fn generators_valid(generators: Seq<Generator>) -> bool {
    forall|i: int|
        0 <= i < generators.len() ==> (#[trigger] generators[i]).valid(generators.len() as int, i)
}

impl Types {
    /// The generators, in order.
    pub closed spec fn generators(&self) -> Seq<Generator> {
        self.generators@
    }

    /// Whether the generators are consistent. This holds of every `Types` that there is.
    pub open spec fn wf(&self) -> bool {
        generators_valid(self.generators())
    }

    /// What holds of every `Types`.
    #[verifier::type_invariant]
    pub open spec fn consistent(&self) -> bool {
        self.wf()
    }

    /// Holds the generators together, if they are consistent.
    pub fn new(generators: Vec<Generator>) -> (r: Option<Types>)
        ensures
            r is Some == generators_valid(generators@),
            r matches Some(types) ==> types.wf() && types.generators() == generators@,
    {
        let n = generators.len();
        let mut i: usize = 0;
        while i < n
            invariant
                i <= n,
                n == generators@.len(),
                forall|j: int|
                    0 <= j < i ==> (#[trigger] generators@[j]).valid(n as int, j),
            decreases n - i,
        {
            if !generators[i].is_valid(n, i) {
                return None;
            }
            i = i + 1;
        }
        Some(Types { generators })
    }

    /// The number of generators.
    pub fn len(&self) -> (r: usize)
        ensures
            r == self.generators().len(),
    {
        self.generators.len()
    }

    /// The generator at a position.
    pub fn get(&self, i: usize) -> (r: &Generator)
        requires
            i < self.generators().len(),
        ensures
            *r == self.generators()[i as int],
    {
        &self.generators[i]
    }

    /// The variants of the enum at a position.
    pub open spec fn variants(&self, i: usize) -> Seq<EnumVariant> {
        self.generators()[i as int]->Enum_0.variants@
    }

    /// Whether the generator at a position is an enum.
    pub open spec fn has_enum(&self, i: usize) -> bool {
        i < self.generators().len() && self.generators()[i as int] is Enum
    }

    /// The variants of the enum at a position.
    pub fn enum_variants(&self, i: usize) -> (r: &Vec<EnumVariant>)
        requires
            self.has_enum(i),
        ensures
            r@ == self.variants(i),
    {
        match &self.generators[i] {
            Generator::Enum(g) => &g.variants,
            Generator::Struct(_) => vstd::pervasive::unreached(),
        }
    }

    /// Whether a shape names a struct, or a variant with fields, of these types.
    pub open spec fn has(&self, shape: Shape) -> bool {
        match shape {
            Shape::Struct(i) => i < self.generators().len() && self.generators()[i as int] is Struct,
            Shape::Variant(i, k) => {
                &&& i < self.generators().len()
                &&& self.generators()[i as int] matches Generator::Enum(g)
                &&& k < g.variants@.len()
                &&& g.variants@[k as int].kind !is Empty
            },
        }
    }

    /// The fields of a shape.
    pub open spec fn fields(&self, shape: Shape) -> Seq<StructField> {
        match shape {
            Shape::Struct(i) => self.generators()[i as int]->Struct_0.fields@,
            Shape::Variant(i, k) => self.generators()[i as int]->Enum_0.variants@[k as int].kind.fields(),
        }
    }

    /// Whether the fields of a shape are named.
    pub open spec fn named(&self, shape: Shape) -> bool {
        match shape {
            Shape::Struct(i) => self.generators()[i as int]->Struct_0.named_fields,
            Shape::Variant(i, k) => self.generators()[i as int]->Enum_0.variants@[k as int].kind is Named,
        }
    }

    /// The identifier of a shape.
    pub open spec fn ident(&self, shape: Shape) -> Seq<char> {
        match shape {
            Shape::Struct(i) => self.generators()[i as int]->Struct_0.ident@,
            Shape::Variant(i, k) => self.generators()[i as int]->Enum_0.variants@[k as int].ident@,
        }
    }

    /// The name under which a shape is shown.
    pub open spec fn name(&self, shape: Shape) -> Seq<char> {
        match shape {
            Shape::Struct(i) => self.generators()[i as int]->Struct_0.name(),
            Shape::Variant(i, k) => self.generators()[i as int]->Enum_0.variants@[k as int].name(),
        }
    }

    /// The prompt that was asked for a shape, if any.
    pub open spec fn prompt(&self, shape: Shape) -> Option<Seq<char>> {
        match shape {
            Shape::Struct(i) => opt_text(self.generators()[i as int]->Struct_0.metadata.prompt),
            Shape::Variant(i, k) => opt_text(
                self.generators()[i as int]->Enum_0.variants@[k as int].metadata.prompt,
            ),
        }
    }

    /// Whether the builders of the fields of a shape are made with the builder of the
    /// generator that the shape belongs to.
    pub open spec fn eager(&self, shape: Shape) -> bool {
        match shape {
            Shape::Struct(i) => true,
            Shape::Variant(i, k) => self.generators()[i as int]->Enum_0.variants@[k as int].metadata.default,
        }
    }

    /// The position of the generator that a shape belongs to.
    pub open spec fn position(shape: Shape) -> int {
        match shape {
            Shape::Struct(i) => i as int,
            Shape::Variant(i, k) => i as int,
        }
    }

    /// The fields of a shape are valid at the position of its generator.
    pub proof fn lemma_fields_valid(&self, shape: Shape)
        requires
            self.wf(),
            self.has(shape),
        ensures
            fields_valid(
                self.fields(shape),
                self.generators().len() as int,
                Self::position(shape),
                self.eager(shape),
                self.named(shape),
            ),
    {
        match shape {
            Shape::Struct(i) => {
                assert(self.generators()[i as int].valid(self.generators().len() as int, i as int));
            },
            Shape::Variant(i, k) => {
                assert(self.generators()[i as int].valid(self.generators().len() as int, i as int));
                let g = self.generators()[i as int]->Enum_0;
                assert(g.variants@[k as int].valid(self.generators().len() as int, i as int));
            },
        }
    }

    /// The fields of a shape.
    pub fn shape_fields(&self, shape: Shape) -> (r: &Vec<StructField>)
        requires
            self.has(shape),
        ensures
            r@ == self.fields(shape),
    {
        match shape {
            Shape::Struct(i) => match &self.generators[i] {
                Generator::Struct(g) => &g.fields,
                Generator::Enum(_) => vstd::pervasive::unreached(),
            },
            Shape::Variant(i, k) => match &self.generators[i] {
                Generator::Enum(g) => match &g.variants[k].kind {
                    VariantKind::Unnamed(fields) => fields,
                    VariantKind::Named(fields) => fields,
                    VariantKind::Empty => vstd::pervasive::unreached(),
                },
                Generator::Struct(_) => vstd::pervasive::unreached(),
            },
        }
    }

    /// Whether the fields of a shape are named.
    pub fn shape_named(&self, shape: Shape) -> (r: bool)
        requires
            self.has(shape),
        ensures
            r == self.named(shape),
    {
        match shape {
            Shape::Struct(i) => match &self.generators[i] {
                Generator::Struct(g) => g.named_fields,
                Generator::Enum(_) => false,
            },
            Shape::Variant(i, k) => match &self.generators[i] {
                Generator::Enum(g) => match &g.variants[k].kind {
                    VariantKind::Named(_) => true,
                    _ => false,
                },
                Generator::Struct(_) => false,
            },
        }
    }

    /// The identifier of a shape.
    pub fn shape_ident(&self, shape: Shape) -> (r: &String)
        requires
            self.has(shape),
        ensures
            r@ == self.ident(shape),
    {
        match shape {
            Shape::Struct(i) => match &self.generators[i] {
                Generator::Struct(g) => &g.ident,
                Generator::Enum(g) => &g.ident,
            },
            Shape::Variant(i, k) => match &self.generators[i] {
                Generator::Enum(g) => &g.variants[k].ident,
                Generator::Struct(g) => &g.ident,
            },
        }
    }

    /// The name under which a shape is shown.
    pub fn shape_name(&self, shape: Shape) -> (r: &String)
        requires
            self.has(shape),
        ensures
            r@ == self.name(shape),
    {
        match shape {
            Shape::Struct(i) => match &self.generators[i] {
                Generator::Struct(g) => g.actual_name(),
                Generator::Enum(g) => &g.ident,
            },
            Shape::Variant(i, k) => match &self.generators[i] {
                Generator::Enum(g) => g.variants[k].actual_name(),
                Generator::Struct(g) => &g.ident,
            },
        }
    }

    /// The prompt that was asked for a shape, if any.
    pub fn shape_prompt(&self, shape: Shape) -> (r: &Option<String>)
        requires
            self.has(shape),
        ensures
            opt_text(*r) == self.prompt(shape),
    {
        match shape {
            Shape::Struct(i) => match &self.generators[i] {
                Generator::Struct(g) => &g.metadata.prompt,
                Generator::Enum(g) => &g.metadata.prompt,
            },
            Shape::Variant(i, k) => match &self.generators[i] {
                Generator::Enum(g) => &g.variants[k].metadata.prompt,
                Generator::Struct(g) => &g.metadata.prompt,
            },
        }
    }
}

impl StructField {
    /// A field with an identifier and a type: shown, under its identifier, with the usual
    /// prompt and without a default value.
    pub fn new(ident: &str, ty: Type) -> (r: StructField)
        ensures
            r.ident@ == ident@,
            r.ty == ty,
            r.metadata == (FieldMetadata {
                default: None,
                prompt: None,
                rename: None,
                hidden: false,
            }),
    {
        StructField {
            ident: new_string(ident),
            ty,
            metadata: FieldMetadata { default: None, prompt: None, rename: None, hidden: false },
        }
    }

    /// The same field with a default value.
    pub fn with_default(self, value: Value) -> (r: StructField)
        ensures
            r == (StructField {
                metadata: FieldMetadata { default: Some(value), ..self.metadata },
                ..self
            }),
    {
        let mut r = self;
        r.metadata.default = Some(value);
        r
    }

    /// The same field with a prompt.
    pub fn with_prompt(self, prompt: &str) -> (r: StructField)
        ensures
            r.metadata.prompt is Some,
            r.metadata.prompt->Some_0@ == prompt@,
            r == (StructField {
                metadata: FieldMetadata { prompt: r.metadata.prompt, ..self.metadata },
                ..self
            }),
    {
        let mut r = self;
        r.metadata.prompt = Some(new_string(prompt));
        r
    }

    /// The same field, shown under another name.
    pub fn renamed(self, name: &str) -> (r: StructField)
        ensures
            r.metadata.rename is Some,
            r.metadata.rename->Some_0@ == name@,
            r == (StructField {
                metadata: FieldMetadata { rename: r.metadata.rename, ..self.metadata },
                ..self
            }),
    {
        let mut r = self;
        r.metadata.rename = Some(new_string(name));
        r
    }

    /// The same field, hidden.
    pub fn hidden(self) -> (r: StructField)
        ensures
            r == (StructField {
                metadata: FieldMetadata { hidden: true, ..self.metadata },
                ..self
            }),
    {
        let mut r = self;
        r.metadata.hidden = true;
        r
    }
}

impl StructGenerator {
    /// A struct with named fields, shown under its identifier, with the usual prompt.
    pub fn new(ident: &str, fields: Vec<StructField>) -> (r: StructGenerator)
        ensures
            r.ident@ == ident@,
            r.fields == fields,
            r.named_fields,
            r.metadata == (StructMetadata { prompt: None, rename: None }),
    {
        StructGenerator {
            ident: new_string(ident),
            fields,
            named_fields: true,
            metadata: StructMetadata { prompt: None, rename: None },
        }
    }

    /// A struct with one unnamed field.
    pub fn unnamed(ident: &str, ty: Type) -> (r: StructGenerator)
        ensures
            r.ident@ == ident@,
            r.fields@.len() == 1,
            r.fields@[0].ty == ty,
            r.fields@[0].metadata == (FieldMetadata {
                default: None,
                prompt: None,
                rename: None,
                hidden: false,
            }),
            !r.named_fields,
            r.metadata == (StructMetadata { prompt: None, rename: None }),
    {
        let mut fields: Vec<StructField> = Vec::new();
        fields.push(StructField::new("0", ty));
        StructGenerator {
            ident: new_string(ident),
            fields,
            named_fields: false,
            metadata: StructMetadata { prompt: None, rename: None },
        }
    }

    /// The same struct with a prompt.
    pub fn with_prompt(self, prompt: &str) -> (r: StructGenerator)
        ensures
            r.metadata.prompt is Some,
            r.metadata.prompt->Some_0@ == prompt@,
            r == (StructGenerator {
                metadata: StructMetadata { prompt: r.metadata.prompt, ..self.metadata },
                ..self
            }),
    {
        let mut r = self;
        r.metadata.prompt = Some(new_string(prompt));
        r
    }

    /// The same struct, shown under another name.
    pub fn renamed(self, name: &str) -> (r: StructGenerator)
        ensures
            r.metadata.rename is Some,
            r.metadata.rename->Some_0@ == name@,
            r == (StructGenerator {
                metadata: StructMetadata { rename: r.metadata.rename, ..self.metadata },
                ..self
            }),
    {
        let mut r = self;
        r.metadata.rename = Some(new_string(name));
        r
    }
}

impl EnumVariant {
    /// A variant of a kind: shown, under its identifier, with the usual prompt, and not the
    /// default.
    pub fn new(ident: &str, kind: VariantKind) -> (r: EnumVariant)
        ensures
            r.ident@ == ident@,
            r.kind == kind,
            r.metadata == (VariantMetadata {
                prompt: None,
                rename: None,
                hidden: false,
                default: false,
            }),
    {
        EnumVariant {
            ident: new_string(ident),
            kind,
            metadata: VariantMetadata { prompt: None, rename: None, hidden: false, default: false },
        }
    }

    /// The same variant with a prompt.
    pub fn with_prompt(self, prompt: &str) -> (r: EnumVariant)
        ensures
            r.metadata.prompt is Some,
            r.metadata.prompt->Some_0@ == prompt@,
            r == (EnumVariant {
                metadata: VariantMetadata { prompt: r.metadata.prompt, ..self.metadata },
                ..self
            }),
    {
        let mut r = self;
        r.metadata.prompt = Some(new_string(prompt));
        r
    }

    /// The same variant, shown under another name.
    pub fn renamed(self, name: &str) -> (r: EnumVariant)
        ensures
            r.metadata.rename is Some,
            r.metadata.rename->Some_0@ == name@,
            r == (EnumVariant {
                metadata: VariantMetadata { rename: r.metadata.rename, ..self.metadata },
                ..self
            }),
    {
        let mut r = self;
        r.metadata.rename = Some(new_string(name));
        r
    }

    /// The same variant, hidden.
    pub fn hidden(self) -> (r: EnumVariant)
        ensures
            r == (EnumVariant {
                metadata: VariantMetadata { hidden: true, ..self.metadata },
                ..self
            }),
    {
        let mut r = self;
        r.metadata.hidden = true;
        r
    }

    /// The same variant, as the default one.
    pub fn as_default(self) -> (r: EnumVariant)
        ensures
            r == (EnumVariant {
                metadata: VariantMetadata { default: true, ..self.metadata },
                ..self
            }),
    {
        let mut r = self;
        r.metadata.default = true;
        r
    }
}

impl EnumGenerator {
    /// An enum with the given variants and the usual prompt.
    pub fn new(ident: &str, variants: Vec<EnumVariant>) -> (r: EnumGenerator)
        ensures
            r.ident@ == ident@,
            r.variants == variants,
            r.metadata == (EnumMetadata { prompt: None }),
    {
        EnumGenerator {
            ident: new_string(ident),
            variants,
            metadata: EnumMetadata { prompt: None },
        }
    }

    /// The same enum with a prompt.
    pub fn with_prompt(self, prompt: &str) -> (r: EnumGenerator)
        ensures
            r.metadata.prompt is Some,
            r.metadata.prompt->Some_0@ == prompt@,
            r.ident == self.ident,
            r.variants == self.variants,
    {
        let mut r = self;
        r.metadata.prompt = Some(new_string(prompt));
        r
    }
}

} // verus!
