//! Schemas, interfaces and the representation that holds them.
use vstd::prelude::*;

verus! {

/// A validation schema.
///
/// The bounds of a `FloatSchema` are kept as the IEEE-754 bit patterns of
/// the `f64` values (`f64::to_bits`); no exporter reads them.
#[allow(inconsistent_fields)]
pub enum Schema {
    RefSchema { name: String },
    ObjectSchema { name: Option<String>, fields: Vec<(String, FieldRestriction)>, unknown: bool },
    StringSchema {
        max: Option<i64>,
        min: Option<i64>,
        regex: Option<String>,
        valid_values: Option<Vec<String>>,
    },
    IntSchema { max: Option<i64>, min: Option<i64>, valid_values: Option<Vec<i64>> },
    FloatSchema { max: Option<u64>, min: Option<u64> },
    BooleanSchema {},
    ArraySchema { item: Box<Schema> },
    OneOf { values: Vec<Schema> },
}

/// Every list in `schema` (the fields of an object, the alternatives of a
/// one-of) holds at most `isize::MAX` items, as every `Vec` of items with a
/// size does.
pub open spec fn lists_fit(schema: Schema) -> bool
    decreases schema,
{
    match schema {
        Schema::ObjectSchema { fields, .. } => {
            &&& fields@.len() <= isize::MAX
            &&& forall|i: int| 0 <= i < fields@.len() ==> lists_fit(#[trigger] fields@[i].1.base)
        },
        Schema::ArraySchema { item } => lists_fit(*item),
        Schema::OneOf { values } => {
            &&& values@.len() <= isize::MAX
            &&& forall|i: int| 0 <= i < values@.len() ==> lists_fit(#[trigger] values@[i])
        },
        _ => true,
    }
}

/// A field of an object schema: its schema and whether it must be present.
pub struct FieldRestriction {
    pub base: Schema,
    pub required: bool,
}

/// A named group of functions.
pub struct Interface<'a> {
    pub(crate) name: String,
    pub functions: Vec<Function<'a>>,
}

/// A function of an interface, with the schemas of its arguments and result.
pub struct Function<'a> {
    pub name: String,
    pub args: Vec<&'a Schema>,
    pub result: &'a Schema,
}

/// The interfaces and the schemas to export.
pub struct IntermediateRepresentation<'a> {
    pub interfaces: Vec<Interface<'a>>,
    pub schemas: Vec<Schema>,
}

impl<'instance> IntermediateRepresentation<'instance> {
    /// A representation with no interface and no schema.
    pub fn init() -> (ir: IntermediateRepresentation<'instance>)
        ensures
            ir.interfaces@.len() == 0,
            ir.schemas@.len() == 0,
    {
        IntermediateRepresentation { interfaces: Vec::new(), schemas: Vec::new() }
    }

    /// Appends `schema` to the schemas, after those already there.
    pub fn add_schema(&mut self, schema: Schema)
        ensures
            final(self).schemas@ == old(self).schemas@.push(schema),
            final(self).interfaces@ == old(self).interfaces@,
    {
        self.schemas.push(schema);
    }
}

} // verus!
