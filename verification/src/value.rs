//! Plain scalar values, key/value groups, and the log record itself.

use vstd::prelude::*;
use crate::json::JVal;
use crate::level::Level;

verus! {

/// One eager scalar value, already reduced to a supported kind.
///
/// `Raw` carries pre-encoded JSON text as printable ASCII bytes; it is the
/// landing place for value kinds the core does not model itself (the
/// caller encodes them with the backend first).
#[derive(Clone)]
pub enum Value {
    Bool(bool),
    /// The unit value; encodes to JSON `null`.
    Unit,
    /// An absent value; encodes to JSON `null`.
    Absent,
    Char(char),
    U8(u8),
    I8(i8),
    U16(u16),
    I16(i16),
    U32(u32),
    I32(i32),
    U64(u64),
    I64(i64),
    Usize(usize),
    Isize(isize),
    Str(String),
    Raw(Vec<u8>),
}

impl Value {
    /// The JSON scalar this value encodes to.
    pub open spec fn jval(self) -> JVal {
        match self {
            Value::Bool(b) => JVal::Bool(b),
            Value::Unit => JVal::Null,
            Value::Absent => JVal::Null,
            Value::Char(c) => JVal::Str(seq![c]),
            Value::U8(v) => JVal::Int(v as int),
            Value::I8(v) => JVal::Int(v as int),
            Value::U16(v) => JVal::Int(v as int),
            Value::I16(v) => JVal::Int(v as int),
            Value::U32(v) => JVal::Int(v as int),
            Value::I32(v) => JVal::Int(v as int),
            Value::U64(v) => JVal::Int(v as int),
            Value::I64(v) => JVal::Int(v as int),
            Value::Usize(v) => JVal::Int(v as int),
            Value::Isize(v) => JVal::Int(v as int),
            Value::Str(s) => JVal::Str(s@),
            Value::Raw(b) => JVal::Raw(b@),
        }
    }

    /// A `Raw` value is acceptable only as printable ASCII, so that the
    /// document stays one line of valid text.
    pub open spec fn raw_ok(self) -> bool {
        match self {
            Value::Raw(b) => forall|i: int| 0 <= i < b@.len() ==> 32 <= #[trigger] b@[i] <= 126,
            _ => true,
        }
    }
}

/// An ordered sequence of key/value pairs contributed by one scope.
pub struct KeyValueGroup {
    pub pairs: Vec<(String, Value)>,
}

impl KeyValueGroup {
    /// The map entries this group contributes, in order.
    pub open spec fn entries(self) -> Seq<(Seq<char>, JVal)> {
        self.pairs@.map(|i: int, p: (String, Value)| (p.0@, p.1.jval()))
    }

    /// Every `Raw` value in the group is printable ASCII.
    pub open spec fn values_ok(self) -> bool {
        forall|i: int| 0 <= i < self.pairs@.len() ==> (#[trigger] self.pairs@[i].1).raw_ok()
    }

    /// An empty group.
    pub fn new() -> (r: KeyValueGroup)
        ensures
            r.pairs@ == Seq::<(String, Value)>::empty(),
    {
        KeyValueGroup { pairs: Vec::new() }
    }

    /// Append one key/value pair.
    pub fn add(&mut self, key: String, value: Value)
        ensures
            final(self).pairs@ == old(self).pairs@.push((key, value)),
    {
        self.pairs.push((key, value));
    }
}

/// A record's message: either eager text or a value still to be formatted.
pub enum Msg<'a> {
    Text(String),
    Lazy(core::fmt::Arguments<'a>),
}

/// Whether `t` can be the text a message renders to: eager text renders
/// to itself; what a lazy value renders to is decided by its formatting
/// callbacks at the one call that renders it, so any text is possible.
pub open spec fn msg_matches(m: Msg, t: Seq<char>) -> bool {
    match m {
        Msg::Text(s) => t == s@,
        Msg::Lazy(_) => true,
    }
}

/// The text of an eager message, or the given text for a lazy one.
pub open spec fn msg_text_or(m: Msg, lazy_text: Seq<char>) -> Seq<char> {
    match m {
        Msg::Text(s) => s@,
        Msg::Lazy(_) => lazy_text,
    }
}

/// One logging event: severity, message, and the call site's own fields.
pub struct Record<'a> {
    pub level: Level,
    pub msg: Msg<'a>,
    pub kv: KeyValueGroup,
}

} // verus!
