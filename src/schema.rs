use vstd::prelude::*;

use crate::chunk::Datum;

verus! {

/// The type of the values in a column.
#[derive(Clone, Copy, Debug, PartialEq, Eq, Structural)]
pub enum DataType {
    Boolean,
    Int16,
    Int32,
    Int64,
    Decimal,
    Varchar,
}

/// One field of an executor's output: its type and its name.
#[derive(Clone, Debug, PartialEq)]
pub struct Field {
    pub data_type: DataType,
    pub name: String,
}

impl Field {
    pub fn with_name(data_type: DataType, name: String) -> (r: Field)
        ensures
            r.data_type == data_type,
            r.name@ == name@,
    {
        Field { data_type, name }
    }

    /// A field with the given type and an empty name.
    pub fn unnamed(data_type: DataType) -> (r: Field)
        ensures
            r.data_type == data_type,
            r.name@.len() == 0,
    {
        Field { data_type, name: String::new() }
    }

    pub fn data_type(&self) -> (r: DataType)
        ensures
            r == self.data_type,
    {
        self.data_type
    }
}

/// Collects values of one column before they become a column of a chunk.
#[derive(Debug)]
pub struct ArrayBuilder {
    pub data_type: DataType,
    pub values: Vec<Datum>,
}

impl ArrayBuilder {
    pub fn new(data_type: DataType, capacity: usize) -> (r: ArrayBuilder)
        ensures
            r.data_type == data_type,
            r.values@.len() == 0,
    {
        ArrayBuilder { data_type, values: Vec::with_capacity(capacity) }
    }

    pub fn append(&mut self, value: Datum)
        ensures
            final(self).data_type == old(self).data_type,
            final(self).values@ == old(self).values@.push(value),
    {
        self.values.push(value);
    }

    /// The column that the appended values make.
    pub fn finish(self) -> (r: Vec<Datum>)
        ensures
            r@ == self.values@,
    {
        self.values
    }
}

/// The ordered list of fields of an executor's output.
#[derive(Clone, Debug, PartialEq)]
pub struct Schema {
    pub fields: Vec<Field>,
}

impl Schema {
    pub fn len(&self) -> (r: usize)
        ensures
            r == self.fields@.len(),
    {
        self.fields.len()
    }

    pub fn is_empty(&self) -> (r: bool)
        ensures
            r == (self.fields@.len() == 0),
    {
        self.fields.len() == 0
    }

    pub fn new(fields: Vec<Field>) -> (r: Schema)
        ensures
            r.fields@ == fields@,
    {
        Schema { fields }
    }

    /// The type of each field, in order.
    pub fn data_types(&self) -> (r: Vec<DataType>)
        ensures
            r@.len() == self.fields@.len(),
            forall|i: int| 0 <= i < r@.len() ==> #[trigger] r@[i] == self.fields@[i].data_type,
    {
        let mut r: Vec<DataType> = Vec::with_capacity(self.fields.len());
        let mut i: usize = 0;
        while i < self.fields.len()
            invariant
                0 <= i <= self.fields@.len(),
                r@.len() == i,
                forall|k: int| 0 <= k < i ==> #[trigger] r@[k] == self.fields@[k].data_type,
            decreases self.fields@.len() - i,
        {
            r.push(self.fields[i].data_type);
            i += 1;
        }
        r
    }

    pub fn fields(&self) -> (r: &[Field])
        ensures
            r@ == self.fields@,
    {
        self.fields.as_slice()
    }

    /// The field at position `i`.
    pub fn index(&self, i: usize) -> (r: &Field)
        requires
            i < self.fields@.len(),
        ensures
            *r == self.fields@[i as int],
    {
        &self.fields[i]
    }

    /// One empty builder per field, of the field's type.
    pub fn create_array_builders(&self, capacity: usize) -> (r: Vec<ArrayBuilder>)
        ensures
            r@.len() == self.fields@.len(),
            forall|i: int|
                0 <= i < r@.len() ==> (#[trigger] r@[i]).data_type == self.fields@[i].data_type
                    && r@[i].values@.len() == 0,
    {
        let mut r: Vec<ArrayBuilder> = Vec::with_capacity(self.fields.len());
        let mut i: usize = 0;
        while i < self.fields.len()
            invariant
                0 <= i <= self.fields@.len(),
                r@.len() == i,
                forall|k: int|
                    0 <= k < i ==> (#[trigger] r@[k]).data_type == self.fields@[k].data_type
                        && r@[k].values@.len() == 0,
            decreases self.fields@.len() - i,
        {
            r.push(ArrayBuilder::new(self.fields[i].data_type, capacity));
            i += 1;
        }
        r
    }
}

/// A schema of `N` unnamed fields of one type.
pub fn field_n<const N: usize>(data_type: DataType) -> (r: Schema)
    ensures
        r.fields@.len() == N,
        forall|i: int|
            0 <= i < N ==> (#[trigger] r.fields@[i]).data_type == data_type
                && r.fields@[i].name@.len() == 0,
{
    let mut fields: Vec<Field> = Vec::with_capacity(N);
    let mut i: usize = 0;
    while i < N
        invariant
            0 <= i <= N,
            fields@.len() == i,
            forall|k: int|
                0 <= k < i ==> (#[trigger] fields@[k]).data_type == data_type
                    && fields@[k].name@.len() == 0,
        decreases N - i,
    {
        fields.push(Field::unnamed(data_type));
        i += 1;
    }
    Schema::new(fields)
}

/// Whether `s` has `n` unnamed fields, all of type `t`.
pub open spec fn uniform_schema(s: Schema, n: nat, t: DataType) -> bool {
    &&& s.fields@.len() == n
    &&& forall|i: int|
        0 <= i < n ==> (#[trigger] s.fields@[i]).data_type == t && s.fields@[i].name@.len() == 0
}

pub fn int32_n<const N: usize>() -> (r: Schema)
    ensures
        uniform_schema(r, N as nat, DataType::Int32),
{
    field_n::<N>(DataType::Int32)
}

pub fn varchar_n<const N: usize>() -> (r: Schema)
    ensures
        uniform_schema(r, N as nat, DataType::Varchar),
{
    field_n::<N>(DataType::Varchar)
}

pub fn decimal_n<const N: usize>() -> (r: Schema)
    ensures
        uniform_schema(r, N as nat, DataType::Decimal),
{
    field_n::<N>(DataType::Decimal)
}

/// Two unnamed int32 fields.
pub fn ii() -> (r: Schema)
    ensures
        uniform_schema(r, 2, DataType::Int32),
{
    int32_n::<2>()
}

/// Three unnamed int32 fields.
pub fn iii() -> (r: Schema)
    ensures
        uniform_schema(r, 3, DataType::Int32),
{
    int32_n::<3>()
}

/// Three unnamed varchar fields.
pub fn sss() -> (r: Schema)
    ensures
        uniform_schema(r, 3, DataType::Varchar),
{
    varchar_n::<3>()
}

/// Three unnamed decimal fields.
pub fn ddd() -> (r: Schema)
    ensures
        uniform_schema(r, 3, DataType::Decimal),
{
    decimal_n::<3>()
}

} // verus!
