use vstd::prelude::*;
use vstd::pervasive::{arbitrary, unreached};
use crate::error::EvaluationError;

verus! {

/// The resolution of a time of day.
#[derive(Clone, Copy, Debug, PartialEq, Eq, Structural)]
pub enum TimeUnit {
    /// Time in seconds.
    Second,
    /// Time in milliseconds.
    Millisecond,
    /// Time in microseconds.
    Microsecond,
    /// Time in nanoseconds.
    Nanosecond,
}

/// The logical type of a column.
#[derive(Debug, PartialEq, Eq)]
pub enum DataType {
    Boolean,
    UInt8,
    UInt16,
    UInt32,
    UInt64,
    Int8,
    Int16,
    Int32,
    Int64,
    Float32,
    Float64,
    Utf8,
    Date,
    Datetime,
    Time64(TimeUnit),
    List(Box<DataType>),
    Object(&'static str),
    Null,
    Categorical,
}

/// The form in which a [`DataType`] travels on the wire: the type of a list's
/// items is dropped, and the name of an object type is borrowed.
#[derive(Clone, Copy, Debug, PartialEq, Eq)]
pub enum DeDataType<'a> {
    Boolean,
    UInt8,
    UInt16,
    UInt32,
    UInt64,
    Int8,
    Int16,
    Int32,
    Int64,
    Float32,
    Float64,
    Utf8,
    Date,
    Datetime,
    Time64(TimeUnit),
    List,
    Object(&'a str),
    Null,
    Categorical,
}

impl Clone for DataType {
    fn clone(&self) -> (r: Self)
        ensures
            r == *self,
        decreases self,
    {
        match self {
            DataType::Boolean => DataType::Boolean,
            DataType::UInt8 => DataType::UInt8,
            DataType::UInt16 => DataType::UInt16,
            DataType::UInt32 => DataType::UInt32,
            DataType::UInt64 => DataType::UInt64,
            DataType::Int8 => DataType::Int8,
            DataType::Int16 => DataType::Int16,
            DataType::Int32 => DataType::Int32,
            DataType::Int64 => DataType::Int64,
            DataType::Float32 => DataType::Float32,
            DataType::Float64 => DataType::Float64,
            DataType::Utf8 => DataType::Utf8,
            DataType::Date => DataType::Date,
            DataType::Datetime => DataType::Datetime,
            DataType::Time64(unit) => DataType::Time64(*unit),
            DataType::List(inner) => DataType::List(Box::new((**inner).clone())),
            DataType::Object(name) => DataType::Object(name),
            DataType::Null => DataType::Null,
            DataType::Categorical => DataType::Categorical,
        }
    }
}

impl DataType {
    /// Whether the type has a wire form. The narrow integers, times of day and
    /// categoricals have none.
    pub open spec fn has_wire_form(&self) -> bool {
        match self {
            DataType::UInt8 | DataType::UInt16 | DataType::Int8 | DataType::Int16 => false,
            DataType::Time64(_) | DataType::Categorical => false,
            _ => true,
        }
    }

    /// Tests [`DataType::has_wire_form`].
    pub fn is_serializable(&self) -> (r: bool)
        ensures
            r == self.has_wire_form(),
    {
        match self {
            DataType::UInt8 | DataType::UInt16 | DataType::Int8 | DataType::Int16 => false,
            DataType::Time64(_) | DataType::Categorical => false,
            _ => true,
        }
    }
}

impl<'a> DeDataType<'a> {
    /// The wire form of each type that has one.
    pub open spec fn wire_form(dt: &DataType) -> DeDataType<'a>
        recommends
            dt.has_wire_form(),
    {
        match dt {
            DataType::Int32 => DeDataType::Int32,
            DataType::UInt32 => DeDataType::UInt32,
            DataType::Int64 => DeDataType::Int64,
            DataType::UInt64 => DeDataType::UInt64,
            DataType::Date => DeDataType::Date,
            DataType::Datetime => DeDataType::Datetime,
            DataType::Float32 => DeDataType::Float32,
            DataType::Float64 => DeDataType::Float64,
            DataType::Utf8 => DeDataType::Utf8,
            DataType::Boolean => DeDataType::Boolean,
            DataType::Null => DeDataType::Null,
            DataType::List(_) => DeDataType::List,
            DataType::Object(name) => DeDataType::Object(name),
            _ => arbitrary(),
        }
    }

    /// Converts a type to its wire form.
    pub fn from(dt: &DataType) -> (r: DeDataType<'a>)
        requires
            dt.has_wire_form(),
        ensures
            r == Self::wire_form(dt),
    {
        match dt {
            DataType::Int32 => DeDataType::Int32,
            DataType::UInt32 => DeDataType::UInt32,
            DataType::Int64 => DeDataType::Int64,
            DataType::UInt64 => DeDataType::UInt64,
            DataType::Date => DeDataType::Date,
            DataType::Datetime => DeDataType::Datetime,
            DataType::Float32 => DeDataType::Float32,
            DataType::Float64 => DeDataType::Float64,
            DataType::Utf8 => DeDataType::Utf8,
            DataType::Boolean => DeDataType::Boolean,
            DataType::Null => DeDataType::Null,
            DataType::List(_) => DeDataType::List,
            DataType::Object(name) => DeDataType::Object(name),
            _ => unreached(),
        }
    }
}

/// A column's name and type.
#[derive(Debug, PartialEq, Eq)]
pub struct Field {
    pub name: String,
    pub dtype: DataType,
}

impl Clone for Field {
    fn clone(&self) -> (r: Self)
        ensures
            r == *self,
    {
        Field { name: self.name.clone(), dtype: self.dtype.clone() }
    }
}

impl Field {
    pub fn new(name: &str, dtype: DataType) -> (r: Field)
        ensures
            r.name@ == name@,
            r.dtype == dtype,
    {
        Field { name: name.to_owned(), dtype }
    }

}

/// Whether `i` is the first position of `names` that holds `name`.
pub open spec fn is_first_named(names: Seq<Seq<char>>, name: Seq<char>, i: int) -> bool {
    &&& 0 <= i < names.len()
    &&& names[i] == name
    &&& forall|j: int| 0 <= j < i ==> names[j] != name
}

/// The first position of `names` that holds `name`, if there is one.
pub open spec fn first_named(names: Seq<Seq<char>>, name: Seq<char>) -> Option<int> {
    if exists|i: int| is_first_named(names, name, i) {
        Some(choose|i: int| is_first_named(names, name, i))
    } else {
        None
    }
}

/// A position that is the first to hold `name` is the one that
/// [`first_named`] gives.
pub proof fn lemma_first_named(names: Seq<Seq<char>>, name: Seq<char>, i: int)
    requires
        is_first_named(names, name, i),
    ensures
        first_named(names, name) == Some(i),
{
}

/// Where no position holds `name`, [`first_named`] gives none.
pub proof fn lemma_none_named(names: Seq<Seq<char>>, name: Seq<char>)
    requires
        forall|i: int| 0 <= i < names.len() ==> names[i] != name,
    ensures
        first_named(names, name) is None,
{
}

/// The fields of a table, in column order.
#[derive(Debug, PartialEq, Eq)]
pub struct Schema {
    pub fields: Vec<Field>,
}

impl Schema {
    pub fn new(fields: Vec<Field>) -> (r: Schema)
        ensures
            r.fields == fields,
    {
        Schema { fields }
    }

    /// The names of the fields, in order.
    pub open spec fn names(&self) -> Seq<Seq<char>> {
        Seq::new(self.fields@.len(), |i: int| self.fields@[i].name@)
    }

    /// The first field called `name`; `SchemaError` where there is none.
    pub fn field_with_name(&self, name: &str) -> (r: Result<&Field, EvaluationError>)
        ensures
            r == match first_named(self.names(), name@) {
                Some(i) => Ok::<&Field, EvaluationError>(&self.fields@[i]),
                None => Err::<&Field, EvaluationError>(EvaluationError::SchemaError),
            },
    {
        let wanted: String = name.to_owned();
        let mut k: usize = 0;
        while k < self.fields.len()
            invariant
                0 <= k <= self.fields@.len(),
                wanted@ == name@,
                forall|j: int| 0 <= j < k ==> self.names()[j] != name@,
            decreases self.fields@.len() - k,
        {
            if self.fields[k].name == wanted {
                proof {
                    lemma_first_named(self.names(), name@, k as int);
                }
                return Ok(&self.fields[k]);
            }
            k = k + 1;
        }
        proof {
            lemma_none_named(self.names(), name@);
        }
        Err(EvaluationError::SchemaError)
    }
}

} // verus!
