//! Typed scalar values: the literals of a predicate and the values of a row
//! or of a statistics record.

use vstd::prelude::*;
use vstd::std_specs::cmp::PartialEqSpecImpl;

verus! {

/// The type of a primitive column.
#[derive(Clone, Copy, Debug, PartialEq, Eq, Hash, Structural)]
pub enum PrimitiveType {
    String,
    Long,
    Integer,
    Short,
    Byte,
    Float,
    Double,
    Boolean,
    Binary,
    Date,
    Timestamp,
    TimestampNtz,
    /// A decimal number of the given precision and scale.
    Decimal(u8, u8),
}

/// A nullable typed value, as contracts see it.
pub ghost enum Datum {
    Null,
    Boolean(bool),
    Byte(i8),
    Short(i16),
    Integer(i32),
    Long(i64),
    Date(i32),
    Timestamp(i64),
    TimestampNtz(i64),
    String(Seq<char>),
    Binary(Seq<u8>),
}

/// A typed scalar value, or NULL.
#[derive(Debug, Eq)]
pub enum Scalar {
    Null,
    Boolean(bool),
    Byte(i8),
    Short(i16),
    Integer(i32),
    Long(i64),
    /// Days since the epoch.
    Date(i32),
    /// Microseconds since the epoch, UTC.
    Timestamp(i64),
    /// Microseconds since the epoch, without a time zone.
    TimestampNtz(i64),
    String(String),
    Binary(Vec<u8>),
}

impl Datum {
    /// The primitive type of the value; NULL has none.
    pub open spec fn data_type(self) -> Option<PrimitiveType> {
        match self {
            Datum::Null => None,
            Datum::Boolean(_) => Some(PrimitiveType::Boolean),
            Datum::Byte(_) => Some(PrimitiveType::Byte),
            Datum::Short(_) => Some(PrimitiveType::Short),
            Datum::Integer(_) => Some(PrimitiveType::Integer),
            Datum::Long(_) => Some(PrimitiveType::Long),
            Datum::Date(_) => Some(PrimitiveType::Date),
            Datum::Timestamp(_) => Some(PrimitiveType::Timestamp),
            Datum::TimestampNtz(_) => Some(PrimitiveType::TimestampNtz),
            Datum::String(_) => Some(PrimitiveType::String),
            Datum::Binary(_) => Some(PrimitiveType::Binary),
        }
    }
}

impl View for Scalar {
    type V = Datum;

    open spec fn view(&self) -> Datum {
        match self {
            Scalar::Null => Datum::Null,
            Scalar::Boolean(b) => Datum::Boolean(*b),
            Scalar::Byte(v) => Datum::Byte(*v),
            Scalar::Short(v) => Datum::Short(*v),
            Scalar::Integer(v) => Datum::Integer(*v),
            Scalar::Long(v) => Datum::Long(*v),
            Scalar::Date(v) => Datum::Date(*v),
            Scalar::Timestamp(v) => Datum::Timestamp(*v),
            Scalar::TimestampNtz(v) => Datum::TimestampNtz(*v),
            Scalar::String(s) => Datum::String(s@),
            Scalar::Binary(b) => Datum::Binary(b@),
        }
    }
}

impl Clone for Scalar {
    fn clone(&self) -> (r: Self)
        ensures
            r@ == self@,
    {
        match self {
            Scalar::Null => Scalar::Null,
            Scalar::Boolean(b) => Scalar::Boolean(*b),
            Scalar::Byte(v) => Scalar::Byte(*v),
            Scalar::Short(v) => Scalar::Short(*v),
            Scalar::Integer(v) => Scalar::Integer(*v),
            Scalar::Long(v) => Scalar::Long(*v),
            Scalar::Date(v) => Scalar::Date(*v),
            Scalar::Timestamp(v) => Scalar::Timestamp(*v),
            Scalar::TimestampNtz(v) => Scalar::TimestampNtz(*v),
            Scalar::String(s) => Scalar::String(s.clone()),
            Scalar::Binary(b) => Scalar::Binary(b.clone()),
        }
    }
}

/// Whether the two byte strings are the same.
pub fn bytes_equal(a: &Vec<u8>, b: &Vec<u8>) -> (r: bool)
    ensures
        r == (a@ == b@),
{
    if a.len() != b.len() {
        return false;
    }
    let mut i: usize = 0;
    while i < a.len()
        invariant
            i <= a.len(),
            a.len() == b.len(),
            forall|j: int| 0 <= j < i ==> a@[j] == b@[j],
        decreases a.len() - i,
    {
        if a[i] != b[i] {
            return false;
        }
        i = i + 1;
    }
    assert(a@ =~= b@);
    true
}

impl PartialEq for Scalar {
    fn eq(&self, other: &Self) -> (r: bool) {
        self.same(other)
    }
}

impl PartialEqSpecImpl for Scalar {
    open spec fn obeys_eq_spec() -> bool {
        true
    }

    open spec fn eq_spec(&self, other: &Self) -> bool {
        self@ == other@
    }
}

impl Scalar {
    /// Whether the two are the same value of the same type, or both NULL.
    pub fn same(&self, other: &Scalar) -> (r: bool)
        ensures
            r == (self@ == other@),
    {
        match (self, other) {
            (Scalar::Null, Scalar::Null) => true,
            (Scalar::Boolean(a), Scalar::Boolean(b)) => *a == *b,
            (Scalar::Byte(a), Scalar::Byte(b)) => *a == *b,
            (Scalar::Short(a), Scalar::Short(b)) => *a == *b,
            (Scalar::Integer(a), Scalar::Integer(b)) => *a == *b,
            (Scalar::Long(a), Scalar::Long(b)) => *a == *b,
            (Scalar::Date(a), Scalar::Date(b)) => *a == *b,
            (Scalar::Timestamp(a), Scalar::Timestamp(b)) => *a == *b,
            (Scalar::TimestampNtz(a), Scalar::TimestampNtz(b)) => *a == *b,
            (Scalar::String(a), Scalar::String(b)) => *a == *b,
            (Scalar::Binary(a), Scalar::Binary(b)) => bytes_equal(a, b),
            _ => false,
        }
    }


    /// The primitive type of the value, or `None` for NULL.
    pub fn data_type(&self) -> (r: Option<PrimitiveType>)
        ensures
            r == self@.data_type(),
    {
        match self {
            Scalar::Null => None,
            Scalar::Boolean(_) => Some(PrimitiveType::Boolean),
            Scalar::Byte(_) => Some(PrimitiveType::Byte),
            Scalar::Short(_) => Some(PrimitiveType::Short),
            Scalar::Integer(_) => Some(PrimitiveType::Integer),
            Scalar::Long(_) => Some(PrimitiveType::Long),
            Scalar::Date(_) => Some(PrimitiveType::Date),
            Scalar::Timestamp(_) => Some(PrimitiveType::Timestamp),
            Scalar::TimestampNtz(_) => Some(PrimitiveType::TimestampNtz),
            Scalar::String(_) => Some(PrimitiveType::String),
            Scalar::Binary(_) => Some(PrimitiveType::Binary),
        }
    }
}

} // verus!
