//! The scalar values a template variable can take: strings, integers and
//! booleans.  No other kind is supported anywhere in the engine.

use vstd::prelude::*;

verus! {

/// The mathematical content of a `Value`: a sequence of characters, an
/// unbounded integer, or a boolean.
pub ghost enum ValueView {
    Str(Seq<char>),
    Int(int),
    Bool(bool),
}

impl ValueView {
    /// Two values are of the same kind when they carry the same variant.
    pub open spec fn same_kind(self, other: ValueView) -> bool {
        match (self, other) {
            (ValueView::Str(_), ValueView::Str(_)) => true,
            (ValueView::Int(_), ValueView::Int(_)) => true,
            (ValueView::Bool(_), ValueView::Bool(_)) => true,
            _ => false,
        }
    }

    /// The name under which a value's kind is reported to users.
    pub open spec fn kind_name(self) -> Seq<char> {
        match self {
            ValueView::Str(_) => "string"@,
            ValueView::Int(_) => "integer"@,
            ValueView::Bool(_) => "bool"@,
        }
    }
}

/// The possible values we can get from a default or from a user.
#[derive(Debug, Clone)]
pub enum Value {
    String(String),
    Integer(i64),
    Boolean(bool),
}

impl View for Value {
    type V = ValueView;

    open spec fn view(&self) -> ValueView {
        match self {
            Value::String(s) => ValueView::Str(s@),
            Value::Integer(i) => ValueView::Int(*i as int),
            Value::Boolean(b) => ValueView::Bool(*b),
        }
    }
}

impl DeepView for Value {
    type V = ValueView;

    open spec fn deep_view(&self) -> ValueView {
        self.view()
    }
}

impl Value {
    /// The user-facing name of this value's kind.
    pub fn type_str(&self) -> (r: &'static str)
        ensures
            r@ == self@.kind_name(),
    {
        match self {
            Value::String(..) => "string",
            Value::Integer(..) => "integer",
            Value::Boolean(..) => "bool",
        }
    }

    /// Whether this value is a string.
    pub fn is_str(&self) -> (r: bool)
        ensures
            r == (self@ is Str),
    {
        matches!(self, Value::String(..))
    }

    /// The borrowed string content, for string values only.
    pub fn as_str(&self) -> (r: Option<&str>)
        ensures
            match r {
                Some(s) => self@ == ValueView::Str(s@),
                None => !(self@ is Str),
            },
    {
        match *self {
            Value::String(ref s) => Some(s.as_str()),
            _ => None,
        }
    }

    /// An exact copy of this value.
    pub fn duplicate(&self) -> (r: Value)
        ensures
            r@ == self@,
    {
        match self {
            Value::String(s) => Value::String(s.clone()),
            Value::Integer(i) => Value::Integer(*i),
            Value::Boolean(b) => Value::Boolean(*b),
        }
    }
}

impl Value {
    /// Whether two values carry the same kind and the same content.
    pub fn value_eq(&self, other: &Value) -> (r: bool)
        ensures
            r == (self@ == other@),
    {
        match (self, other) {
            (Value::String(a), Value::String(b)) => *a == *b,
            (Value::Integer(a), Value::Integer(b)) => *a == *b,
            (Value::Boolean(a), Value::Boolean(b)) => *a == *b,
            _ => false,
        }
    }
}

impl PartialEq for Value {
    fn eq(&self, other: &Value) -> (r: bool) {
        self.value_eq(other)
    }
}

impl vstd::std_specs::cmp::PartialEqSpecImpl for Value {
    open spec fn obeys_eq_spec() -> bool {
        true
    }

    open spec fn eq_spec(&self, other: &Value) -> bool {
        self@ == other@
    }
}

} // verus!
