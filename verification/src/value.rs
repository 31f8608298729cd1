//! The values that a builder produces, and the plain types whose values are typed as text.

use crate::text::{copy_string, int_text, int_to_string, new_string, parse_int, read_int, IntError};
use vstd::prelude::*;
use vstd::string::*;

verus! {

/// A plain type: one whose values the user types as text.
#[derive(Debug, Clone, Copy, PartialEq, Eq, Structural)]
pub enum Plain {
    I8,
    I16,
    I32,
    I64,
    U8,
    U16,
    U32,
    U64,
    Isize,
    Usize,
    /// A string, taken as it is typed.
    Str,
    /// A single character.
    Char,
    /// A path of the file system, held as the text that was typed.
    Path,
}

/// A value built by a builder. Each kind of builder produces one shape of value.
#[derive(Debug, PartialEq, Eq)]
pub enum Value {
    I8(i8),
    I16(i16),
    I32(i32),
    I64(i64),
    U8(u8),
    U16(u16),
    U32(u32),
    U64(u64),
    Isize(isize),
    Usize(usize),
    Str(String),
    Char(char),
    Bool(bool),
    Path(String),
    /// The items of a list, in order.
    List(Vec<Value>),
    /// A value that may be absent.
    Optional(Option<Box<Value>>),
    /// A value behind a box.
    Boxed(Box<Value>),
    /// A struct (or a variant) with named fields: its name, then each field with its value,
    /// in the order of declaration.
    Record(String, Vec<(String, Value)>),
    /// A struct (or a variant) with one unnamed field: its name and the field's value.
    Wrapper(String, Box<Value>),
    /// A variant without fields: its name.
    Unit(String),
}

/// The mathematical content of a [`Value`].
pub ghost enum ValueView {
    I8(i8),
    I16(i16),
    I32(i32),
    I64(i64),
    U8(u8),
    U16(u16),
    U32(u32),
    U64(u64),
    Isize(isize),
    Usize(usize),
    Str(Seq<char>),
    Char(char),
    Bool(bool),
    Path(Seq<char>),
    List(Seq<ValueView>),
    Optional(Option<Box<ValueView>>),
    Boxed(Box<ValueView>),
    Record(Seq<char>, Seq<(Seq<char>, ValueView)>),
    Wrapper(Seq<char>, Box<ValueView>),
    Unit(Seq<char>),
}

/// What `Display` shows for a failure to read an integer.
pub open spec fn int_error_text(e: IntError) -> Seq<char> {
    match e {
        IntError::Empty => "cannot parse integer from empty string"@,
        IntError::InvalidDigit => "invalid digit found in string"@,
        IntError::PosOverflow => "number too large to fit in target type"@,
        IntError::NegOverflow => "number too small to fit in target type"@,
    }
}

/// The message for a failure to read an integer.
pub fn int_error_message(e: IntError) -> (r: String)
    ensures
        r@ == int_error_text(e),
{
    match e {
        IntError::Empty => new_string("cannot parse integer from empty string"),
        IntError::InvalidDigit => new_string("invalid digit found in string"),
        IntError::PosOverflow => new_string("number too large to fit in target type"),
        IntError::NegOverflow => new_string("number too small to fit in target type"),
    }
}

impl Plain {
    /// Whether the type is one of the integer types.
    pub open spec fn is_integer(self) -> bool {
        !(self is Str || self is Char || self is Path)
    }

    /// Whether the integer type has negative values.
    pub open spec fn signed(self) -> bool {
        self is I8 || self is I16 || self is I32 || self is I64 || self is Isize
    }

    /// The smallest value of an integer type.
    pub open spec fn min(self) -> int {
        match self {
            Plain::I8 => i8::MIN as int,
            Plain::I16 => i16::MIN as int,
            Plain::I32 => i32::MIN as int,
            Plain::I64 => i64::MIN as int,
            Plain::Isize => isize::MIN as int,
            _ => 0,
        }
    }

    /// The largest value of an integer type.
    pub open spec fn max(self) -> int {
        match self {
            Plain::I8 => i8::MAX as int,
            Plain::I16 => i16::MAX as int,
            Plain::I32 => i32::MAX as int,
            Plain::I64 => i64::MAX as int,
            Plain::Isize => isize::MAX as int,
            Plain::U8 => u8::MAX as int,
            Plain::U16 => u16::MAX as int,
            Plain::U32 => u32::MAX as int,
            Plain::U64 => u64::MAX as int,
            Plain::Usize => usize::MAX as int,
            _ => 0,
        }
    }

    /// The value of an integer type that stands for a number in its range.
    pub open spec fn integer(self, v: int) -> ValueView {
        match self {
            Plain::I8 => ValueView::I8(v as i8),
            Plain::I16 => ValueView::I16(v as i16),
            Plain::I32 => ValueView::I32(v as i32),
            Plain::I64 => ValueView::I64(v as i64),
            Plain::Isize => ValueView::Isize(v as isize),
            Plain::U8 => ValueView::U8(v as u8),
            Plain::U16 => ValueView::U16(v as u16),
            Plain::U32 => ValueView::U32(v as u32),
            Plain::U64 => ValueView::U64(v as u64),
            _ => ValueView::Usize(v as usize),
        }
    }

    /// The value of this type that a text denotes, or the message that says why it denotes
    /// none.
    ///
    /// An integer is written in decimal notation and must fit in its type. A character is a
    /// text of exactly one character. A string or a path is any text.
    pub open spec fn parse(self, s: Seq<char>) -> Result<ValueView, Seq<char>> {
        match self {
            Plain::Str => Ok(ValueView::Str(s)),
            Plain::Path => Ok(ValueView::Path(s)),
            Plain::Char => if s.len() == 1 {
                Ok(ValueView::Char(s[0]))
            } else if s.len() == 0 {
                Err("cannot parse char from empty string"@)
            } else {
                Err("too many characters in string"@)
            },
            _ => match parse_int(s, self.signed(), self.min(), self.max()) {
                Ok(v) => Ok(self.integer(v)),
                Err(e) => Err(int_error_text(e)),
            },
        }
    }

    /// The query that a builder of this type shows where no other was asked for.
    pub open spec fn query(self) -> Seq<char> {
        match self {
            Plain::Str => "Type a string"@,
            Plain::Char => "Type a char"@,
            Plain::Path => "Type a path"@,
            _ => "Type an integer"@,
        }
    }

    /// The query that a builder of this type shows where no other was asked for.
    pub fn default_query(self) -> (r: String)
        ensures
            r@ == self.query(),
    {
        match self {
            Plain::Str => new_string("Type a string"),
            Plain::Char => new_string("Type a char"),
            Plain::Path => new_string("Type a path"),
            _ => new_string("Type an integer"),
        }
    }

    /// Reads an integer of this type, as a wide integer.
    fn read_integer(self, s: &str) -> (r: Result<i128, IntError>)
        requires
            self.is_integer(),
        ensures
            r matches Ok(v) ==> self.min() <= v <= self.max() && parse_int(
                s@,
                self.signed(),
                self.min(),
                self.max(),
            ) == Ok::<int, IntError>(v as int),
            r matches Err(e) ==> parse_int(s@, self.signed(), self.min(), self.max()) == Err::<
                int,
                IntError,
            >(e),
    {
        match self {
            Plain::I8 => read_int(s, true, i8::MIN as i128, i8::MAX as i128),
            Plain::I16 => read_int(s, true, i16::MIN as i128, i16::MAX as i128),
            Plain::I32 => read_int(s, true, i32::MIN as i128, i32::MAX as i128),
            Plain::I64 => read_int(s, true, i64::MIN as i128, i64::MAX as i128),
            Plain::Isize => read_int(s, true, isize::MIN as i128, isize::MAX as i128),
            Plain::U8 => read_int(s, false, 0, u8::MAX as i128),
            Plain::U16 => read_int(s, false, 0, u16::MAX as i128),
            Plain::U32 => read_int(s, false, 0, u32::MAX as i128),
            Plain::U64 => read_int(s, false, 0, u64::MAX as i128),
            _ => read_int(s, false, 0, usize::MAX as i128),
        }
    }

    /// The value of an integer type that stands for a number in its range.
    fn make_integer(self, v: i128) -> (r: Value)
        requires
            self.is_integer(),
            self.min() <= v <= self.max(),
        ensures
            r@ == self.integer(v as int),
    {
        match self {
            Plain::I8 => Value::I8(v as i8),
            Plain::I16 => Value::I16(v as i16),
            Plain::I32 => Value::I32(v as i32),
            Plain::I64 => Value::I64(v as i64),
            Plain::Isize => Value::Isize(v as isize),
            Plain::U8 => Value::U8(v as u8),
            Plain::U16 => Value::U16(v as u16),
            Plain::U32 => Value::U32(v as u32),
            Plain::U64 => Value::U64(v as u64),
            _ => Value::Usize(v as usize),
        }
    }

    /// Reads a value of this type from a text.
    pub fn read(self, s: &str) -> (r: Result<Value, String>)
        ensures
            r matches Ok(v) ==> self.parse(s@) == Ok::<ValueView, Seq<char>>(v@),
            r matches Err(e) ==> self.parse(s@) == Err::<ValueView, Seq<char>>(e@),
    {
        match self {
            Plain::Str => Ok(Value::Str(new_string(s))),
            Plain::Path => Ok(Value::Path(new_string(s))),
            Plain::Char => {
                let n = s.unicode_len();
                if n == 1 {
                    Ok(Value::Char(s.get_char(0)))
                } else if n == 0 {
                    Err(new_string("cannot parse char from empty string"))
                } else {
                    Err(new_string("too many characters in string"))
                }
            },
            _ => match self.read_integer(s) {
                Ok(v) => Ok(self.make_integer(v)),
                Err(e) => Err(int_error_message(e)),
            },
        }
    }
}

/// The string that holds one character.
///
/// Calls `char::to_string` of the standard library, whose result is the text of that one
/// character.
#[verifier::external_body]
fn char_to_string(c: char) -> (r: String)
    ensures
        r@ == seq![c],
{
    c.to_string()
}

impl ValueView {
    /// The plain type of a value, if it is of one.
    pub open spec fn plain(self) -> Option<Plain> {
        match self {
            ValueView::I8(_) => Some(Plain::I8),
            ValueView::I16(_) => Some(Plain::I16),
            ValueView::I32(_) => Some(Plain::I32),
            ValueView::I64(_) => Some(Plain::I64),
            ValueView::U8(_) => Some(Plain::U8),
            ValueView::U16(_) => Some(Plain::U16),
            ValueView::U32(_) => Some(Plain::U32),
            ValueView::U64(_) => Some(Plain::U64),
            ValueView::Isize(_) => Some(Plain::Isize),
            ValueView::Usize(_) => Some(Plain::Usize),
            ValueView::Str(_) => Some(Plain::Str),
            ValueView::Char(_) => Some(Plain::Char),
            ValueView::Path(_) => Some(Plain::Path),
            _ => None,
        }
    }

    /// What is shown for a value of a plain type or a boolean; the empty text for any other.
    pub open spec fn text(self) -> Seq<char> {
        match self {
            ValueView::I8(v) => int_text(v as int),
            ValueView::I16(v) => int_text(v as int),
            ValueView::I32(v) => int_text(v as int),
            ValueView::I64(v) => int_text(v as int),
            ValueView::U8(v) => int_text(v as int),
            ValueView::U16(v) => int_text(v as int),
            ValueView::U32(v) => int_text(v as int),
            ValueView::U64(v) => int_text(v as int),
            ValueView::Isize(v) => int_text(v as int),
            ValueView::Usize(v) => int_text(v as int),
            ValueView::Str(s) => s,
            ValueView::Char(c) => seq![c],
            ValueView::Bool(b) => if b {
                "true"@
            } else {
                "false"@
            },
            ValueView::Path(s) => s,
            _ => Seq::empty(),
        }
    }
}

impl Value {
    /// The mathematical content of the value.
    pub open spec fn content(&self) -> ValueView
        decreases self,
    {
        match self {
            Value::I8(v) => ValueView::I8(*v),
            Value::I16(v) => ValueView::I16(*v),
            Value::I32(v) => ValueView::I32(*v),
            Value::I64(v) => ValueView::I64(*v),
            Value::U8(v) => ValueView::U8(*v),
            Value::U16(v) => ValueView::U16(*v),
            Value::U32(v) => ValueView::U32(*v),
            Value::U64(v) => ValueView::U64(*v),
            Value::Isize(v) => ValueView::Isize(*v),
            Value::Usize(v) => ValueView::Usize(*v),
            Value::Str(s) => ValueView::Str(s@),
            Value::Char(c) => ValueView::Char(*c),
            Value::Bool(b) => ValueView::Bool(*b),
            Value::Path(s) => ValueView::Path(s@),
            Value::List(items) => ValueView::List(
                Seq::new(
                    items@.len(),
                    |i: int|
                        if 0 <= i < items@.len() {
                            items@[i].content()
                        } else {
                            ValueView::Bool(false)
                        },
                ),
            ),
            Value::Optional(o) => match o {
                Some(v) => ValueView::Optional(Some(Box::new((**v).content()))),
                None => ValueView::Optional(None),
            },
            Value::Boxed(v) => ValueView::Boxed(Box::new((**v).content())),
            Value::Record(name, fields) => ValueView::Record(
                name@,
                Seq::new(
                    fields@.len(),
                    |i: int|
                        if 0 <= i < fields@.len() {
                            (fields@[i].0@, fields@[i].1.content())
                        } else {
                            (Seq::empty(), ValueView::Bool(false))
                        },
                ),
            ),
            Value::Wrapper(name, v) => ValueView::Wrapper(name@, Box::new((**v).content())),
            Value::Unit(name) => ValueView::Unit(name@),
        }
    }

    /// The plain type of a value, if it is of one.
    pub fn plain(&self) -> (r: Option<Plain>)
        ensures
            r == self@.plain(),
    {
        match self {
            Value::I8(_) => Some(Plain::I8),
            Value::I16(_) => Some(Plain::I16),
            Value::I32(_) => Some(Plain::I32),
            Value::I64(_) => Some(Plain::I64),
            Value::U8(_) => Some(Plain::U8),
            Value::U16(_) => Some(Plain::U16),
            Value::U32(_) => Some(Plain::U32),
            Value::U64(_) => Some(Plain::U64),
            Value::Isize(_) => Some(Plain::Isize),
            Value::Usize(_) => Some(Plain::Usize),
            Value::Str(_) => Some(Plain::Str),
            Value::Char(_) => Some(Plain::Char),
            Value::Path(_) => Some(Plain::Path),
            _ => None,
        }
    }

    /// What is shown for a value of a plain type or a boolean; the empty text for any other.
    pub fn text(&self) -> (r: String)
        ensures
            r@ == self@.text(),
    {
        match self {
            Value::I8(v) => int_to_string(*v as i128),
            Value::I16(v) => int_to_string(*v as i128),
            Value::I32(v) => int_to_string(*v as i128),
            Value::I64(v) => int_to_string(*v as i128),
            Value::U8(v) => int_to_string(*v as i128),
            Value::U16(v) => int_to_string(*v as i128),
            Value::U32(v) => int_to_string(*v as i128),
            Value::U64(v) => int_to_string(*v as i128),
            Value::Isize(v) => int_to_string(*v as i128),
            Value::Usize(v) => int_to_string(*v as i128),
            Value::Str(s) => copy_string(s),
            Value::Char(c) => char_to_string(*c),
            Value::Bool(b) => if *b {
                new_string("true")
            } else {
                new_string("false")
            },
            Value::Path(s) => copy_string(s),
            _ => String::new(),
        }
    }

    /// A copy of the value.
    pub fn copy(&self) -> (r: Value)
        ensures
            r@ == self@,
        decreases self,
    {
        match self {
            Value::I8(v) => Value::I8(*v),
            Value::I16(v) => Value::I16(*v),
            Value::I32(v) => Value::I32(*v),
            Value::I64(v) => Value::I64(*v),
            Value::U8(v) => Value::U8(*v),
            Value::U16(v) => Value::U16(*v),
            Value::U32(v) => Value::U32(*v),
            Value::U64(v) => Value::U64(*v),
            Value::Isize(v) => Value::Isize(*v),
            Value::Usize(v) => Value::Usize(*v),
            Value::Str(s) => Value::Str(copy_string(s)),
            Value::Char(c) => Value::Char(*c),
            Value::Bool(b) => Value::Bool(*b),
            Value::Path(s) => Value::Path(copy_string(s)),
            Value::List(items) => {
                let mut copies: Vec<Value> = Vec::new();
                let mut i: usize = 0;
                while i < items.len()
                    invariant
                        i <= items@.len(),
                        self is List,
                        self->List_0 == *items,
                        copies@.len() == i,
                        forall|j: int| 0 <= j < i ==> (#[trigger] copies@[j])@ == items@[j]@,
                    decreases items@.len() - i,
                {
                    copies.push(items[i].copy());
                    i = i + 1;
                }
                let r = Value::List(copies);
                assert(r@->List_0 =~= self@->List_0);
                r
            },
            Value::Optional(o) => match o {
                Some(v) => Value::Optional(Some(Box::new(v.copy()))),
                None => Value::Optional(None),
            },
            Value::Boxed(v) => Value::Boxed(Box::new(v.copy())),
            Value::Record(name, fields) => {
                let mut copies: Vec<(String, Value)> = Vec::new();
                let mut i: usize = 0;
                while i < fields.len()
                    invariant
                        i <= fields@.len(),
                        self is Record,
                        self->Record_0 == *name,
                        self->Record_1 == *fields,
                        copies@.len() == i,
                        forall|j: int|
                            0 <= j < i ==> (#[trigger] copies@[j]).0@ == fields@[j].0@
                                && copies@[j].1@ == fields@[j].1@,
                    decreases fields@.len() - i,
                {
                    copies.push((copy_string(&fields[i].0), fields[i].1.copy()));
                    i = i + 1;
                }
                let r = Value::Record(copy_string(name), copies);
                assert(r@->Record_1 =~= self@->Record_1);
                r
            },
            Value::Wrapper(name, v) => Value::Wrapper(copy_string(name), Box::new(v.copy())),
            Value::Unit(name) => Value::Unit(copy_string(name)),
        }
    }
}

impl Clone for Value {
    fn clone(&self) -> (r: Self)
        ensures
            r@ == self@,
    {
        self.copy()
    }
}

impl View for Value {
    type V = ValueView;

    open spec fn view(&self) -> ValueView {
        self.content()
    }
}

} // verus!
