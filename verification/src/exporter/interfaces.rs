//! TypeScript interfaces and types for the schemas of the representation.
use vstd::prelude::*;
use vstd::string::StringExecFns;
use crate::exporter::helpers::{interface_name, Helpers};
use crate::ir::{FieldRestriction, IntermediateRepresentation, Schema};
use crate::text::{join, join_strings, law_join_holds_items, occurs};

verus! {

broadcast use vstd::std_specs::vec::group_vec_axioms;

/// The TypeScript text of a schema.
pub open spec fn ts_schema(schema: Schema) -> Seq<char>
    decreases schema,
{
    match schema {
        Schema::RefSchema { name } => interface_name(name@),
        Schema::ObjectSchema { name, fields, unknown: _ } => match name {
            Some(n) => "\n\nexport interface "@ + interface_name(n@) + " {"@ + ts_fields(fields@)
                + "\n}"@,
            None => " {"@ + ts_fields(fields@) + "\n}"@,
        },
        Schema::StringSchema { .. } => " string"@,
        Schema::IntSchema { .. } => " number"@,
        Schema::FloatSchema { .. } => " number"@,
        Schema::BooleanSchema {  } => " boolean"@,
        Schema::ArraySchema { item } => ts_schema(*item) + "[]"@,
        Schema::OneOf { values } => join(ts_list(values@), " |"@),
    }
}

/// The TypeScript text of the fields of an object: one line per field.
pub open spec fn ts_fields(fields: Seq<(String, FieldRestriction)>) -> Seq<char>
    decreases fields,
{
    if fields.len() == 0 {
        Seq::empty()
    } else {
        ts_fields(fields.subrange(0, fields.len() - 1)) + "\n\t"@ + fields.last().0@ + ":"@
            + ts_schema(fields.last().1.base)
    }
}

/// The TypeScript texts of the alternatives of a one-of schema.
pub open spec fn ts_list(values: Seq<Schema>) -> Seq<Seq<char>>
    decreases values,
{
    if values.len() == 0 {
        Seq::empty()
    } else {
        ts_list(values.subrange(0, values.len() - 1)).push(ts_schema(values.last()))
    }
}

/// The TypeScript text of a list of schemas: their texts one after the other.
pub open spec fn ts_export(schemas: Seq<Schema>) -> Seq<char>
    decreases schemas.len(),
{
    if schemas.len() == 0 {
        Seq::empty()
    } else {
        ts_export(schemas.drop_last()) + ts_schema(schemas.last())
    }
}

/// Adding a schema to a representation appends the schema's TypeScript text
/// to the export of the schemas before it.
pub proof fn law_export_after_add_schema(schemas: Seq<Schema>, schema: Schema)
    ensures
        ts_export(schemas.push(schema)) == ts_export(schemas) + ts_schema(schema),
{
    assert(schemas.push(schema).drop_last() =~= schemas);
}

/// The export of two lists of schemas one after the other is the export of
/// the first followed by that of the second.
pub proof fn law_export_concat(first: Seq<Schema>, second: Seq<Schema>)
    ensures
        ts_export(first + second) == ts_export(first) + ts_export(second),
    decreases second.len(),
{
    if second.len() == 0 {
        assert(first + second =~= first);
        assert(ts_export(first) + Seq::<char>::empty() =~= ts_export(first));
    } else {
        let shorter = second.drop_last();
        law_export_concat(first, shorter);
        assert((first + second).drop_last() =~= first + shorter);
        assert((first + second).last() == second.last());
        assert(ts_export(first) + (ts_export(shorter) + ts_schema(second.last())) =~= (ts_export(
            first,
        ) + ts_export(shorter)) + ts_schema(second.last()));
    }
}

/// The fields `first` followed by `second` give the lines of `first`
/// followed by those of `second`: every field keeps its line, in order.
pub proof fn law_fields_concat(first: Seq<(String, FieldRestriction)>, second: Seq<(String, FieldRestriction)>)
    ensures
        ts_fields(first + second) == ts_fields(first) + ts_fields(second),
    decreases second.len(),
{
    if second.len() == 0 {
        assert(first + second =~= first);
        assert(ts_fields(first) + Seq::<char>::empty() =~= ts_fields(first));
    } else {
        let shorter = second.subrange(0, second.len() - 1);
        law_fields_concat(first, shorter);
        let all = first + second;
        assert(all.subrange(0, all.len() - 1) =~= first + shorter);
        assert(all.last() == second.last());
        let line = "\n\t"@ + second.last().0@ + ":"@ + ts_schema(second.last().1.base);
        assert(ts_fields(all) =~= ts_fields(first + shorter) + line);
        assert(ts_fields(second) =~= ts_fields(shorter) + line);
        assert(ts_fields(first) + (ts_fields(shorter) + line) =~= ts_fields(first) + ts_fields(shorter)
            + line);
    }
}

/// The alternatives of a one-of keep their texts, one per alternative, in
/// order; so the text of a one-of holds the text of each alternative.
pub proof fn law_one_of_alternatives(values: Seq<Schema>)
    ensures
        ts_list(values).len() == values.len(),
        forall|i: int| 0 <= i < values.len() ==> #[trigger] ts_list(values)[i] == ts_schema(values[i]),
        forall|i: int|
            0 <= i < values.len() ==> #[trigger] occurs(join(ts_list(values), " |"@), ts_schema(values[i])),
    decreases values.len(),
{
    if values.len() > 0 {
        let shorter = values.subrange(0, values.len() - 1);
        law_one_of_alternatives(shorter);
        assert forall|i: int| 0 <= i < values.len() implies #[trigger] ts_list(values)[i] == ts_schema(
            values[i],
        ) by {
            if i < values.len() - 1 {
                assert(values[i] == shorter[i]);
            }
        }
    }
    law_join_holds_items(ts_list(values), " |"@);
    assert forall|i: int| 0 <= i < values.len() implies #[trigger] occurs(
        join(ts_list(values), " |"@),
        ts_schema(values[i]),
    ) by {
        assert(occurs(join(ts_list(values), " |"@), ts_list(values)[i]));
    }
}

/// The text of a one-of holds the text of each of its alternatives.
pub proof fn law_one_of_text(values: Vec<Schema>)
    ensures
        forall|i: int|
            0 <= i < values@.len() ==> #[trigger] occurs(
                ts_schema(Schema::OneOf { values }),
                ts_schema(values@[i]),
            ),
{
    law_one_of_alternatives(values@);
}

/// `schema` inside `n` levels of arrays.
pub open spec fn nested_array(schema: Schema, n: nat) -> Schema
    decreases n,
{
    if n == 0 {
        schema
    } else {
        Schema::ArraySchema { item: Box::new(nested_array(schema, (n - 1) as nat)) }
    }
}

/// `n` pairs of brackets.
pub open spec fn brackets(n: nat) -> Seq<char>
    decreases n,
{
    if n == 0 {
        Seq::empty()
    } else {
        brackets((n - 1) as nat) + "[]"@
    }
}

/// The TypeScript text of an array is the text of its items followed by
/// `[]`, whatever kind of schema the items have; so `n` levels of arrays
/// around a schema add `n` pairs of brackets to its text, and nothing else.
pub proof fn law_array_text(item: Schema, n: nat)
    ensures
        ts_schema(Schema::ArraySchema { item: Box::new(item) }) == ts_schema(item) + "[]"@,
        ts_schema(nested_array(item, n)) == ts_schema(item) + brackets(n),
        ts_schema(nested_array(item, n)).len() == ts_schema(item).len() + n * "[]"@.len(),
    decreases n,
{
    if n == 0 {
        assert(ts_schema(item) + Seq::<char>::empty() =~= ts_schema(item));
    } else {
        law_array_text(item, (n - 1) as nat);
        let inner = nested_array(item, (n - 1) as nat);
        assert(ts_schema(nested_array(item, n)) == ts_schema(inner) + "[]"@);
        assert((ts_schema(item) + brackets((n - 1) as nat)) + "[]"@ =~= ts_schema(item) + (brackets(
            (n - 1) as nat,
        ) + "[]"@));
        assert((n - 1) * "[]"@.len() + "[]"@.len() == n * "[]"@.len()) by (nonlinear_arith);
    }
}

pub struct TypescriptInterface {}

impl TypescriptInterface {
    /// The TypeScript text of all schemas of `ir`, in order. Never fails.
    pub fn export(ir: &IntermediateRepresentation) -> (r: Result<String, &'static str>)
        ensures
            r matches Ok(s) && s@ == ts_export(ir.schemas@),
    {
        let mut output = String::new();
        let mut i: usize = 0;
        while i < ir.schemas.len()
            invariant
                i <= ir.schemas@.len(),
                output@ == ts_export(ir.schemas@.take(i as int)),
            decreases ir.schemas@.len() - i,
        {
            match TypescriptInterface::format_schema(&ir.schemas[i]) {
                Ok(converted) => {
                    output.append(converted.as_str());
                },
                Err(e) => {
                    return Err(e);
                },
            }
            assert(ir.schemas@.take(i + 1).drop_last() =~= ir.schemas@.take(i as int));
            i = i + 1;
        }
        assert(ir.schemas@.take(i as int) =~= ir.schemas@);
        Ok(output)
    }

    fn format_schema(schema: &Schema) -> (r: Result<String, &'static str>)
        ensures
            r matches Ok(s) && s@ == ts_schema(*schema),
        decreases schema, 0int,
    {
        match schema {
            Schema::RefSchema { name } => Helpers::format_interface_name(name),
            Schema::ObjectSchema { name, fields, unknown: _ } => {
                match name {
                    Some(value) => TypescriptInterface::format_interface(value, fields),
                    None => TypescriptInterface::format_object(fields),
                }
            },
            Schema::StringSchema { .. } => Ok(String::from_str(" string")),
            Schema::IntSchema { .. } => Ok(String::from_str(" number")),
            Schema::FloatSchema { .. } => Ok(String::from_str(" number")),
            Schema::BooleanSchema {  } => Ok(String::from_str(" boolean")),
            Schema::ArraySchema { item } => {
                match TypescriptInterface::format_schema(item) {
                    Ok(converted) => {
                        let mut converted = converted;
                        converted.append("[]");
                        Ok(converted)
                    },
                    Err(e) => Err(e),
                }
            },
            Schema::OneOf { values } => TypescriptInterface::format_one_of(values),
        }
    }

    fn format_interface(name: &String, fields: &Vec<(String, FieldRestriction)>) -> (r: Result<
        String,
        &'static str,
    >)
        ensures
            r matches Ok(s) && s@ == "\n\nexport interface "@ + interface_name(name@) + " {"@
                + ts_fields(fields@) + "\n}"@,
        decreases fields, 1int,
    {
        match Helpers::format_interface_name(name) {
            Ok(name) => match TypescriptInterface::format_object(fields) {
                Ok(converted) => {
                    let mut output = String::from_str("\n\nexport interface ");
                    output.append(name.as_str());
                    output.append(converted.as_str());
                    Ok(output)
                },
                Err(e) => Err(e),
            },
            Err(e) => Err(e),
        }
    }

    fn format_object(fields: &Vec<(String, FieldRestriction)>) -> (r: Result<String, &'static str>)
        ensures
            r matches Ok(s) && s@ == " {"@ + ts_fields(fields@) + "\n}"@,
        decreases fields, 0int,
    {
        let mut output = String::from_str(" {");
        let mut i: usize = 0;
        while i < fields.len()
            invariant
                i <= fields@.len(),
                output@ == " {"@ + ts_fields(fields@.take(i as int)),
            decreases fields@.len() - i,
        {
            let (k, v) = &fields[i];
            proof {
                assert(decreases_to!(fields => fields[i as int]));
            }
            match TypescriptInterface::format_schema(&v.base) {
                Ok(converted) => {
                    output.append("\n\t");
                    output.append(k.as_str());
                    output.append(":");
                    output.append(converted.as_str());
                },
                Err(e) => {
                    return Err(e);
                },
            }
            assert(fields@.take(i + 1).subrange(0, i as int) =~= fields@.take(i as int));
            i = i + 1;
        }
        assert(fields@.take(i as int) =~= fields@);
        output.append("\n}");
        Ok(output)
    }

    fn format_one_of(schemas: &Vec<Schema>) -> (r: Result<String, &'static str>)
        ensures
            r matches Ok(s) && s@ == join(ts_list(schemas@), " |"@),
        decreases schemas, 0int,
    {
        let mut output: Vec<String> = Vec::new();
        let mut i: usize = 0;
        while i < schemas.len()
            invariant
                i <= schemas@.len(),
                output@.map_values(|v: String| v@) == ts_list(schemas@.take(i as int)),
            decreases schemas@.len() - i,
        {
            proof {
                assert(decreases_to!(schemas => schemas[i as int]));
            }
            match TypescriptInterface::format_schema(&schemas[i]) {
                Ok(converted) => {
                    output.push(converted);
                },
                Err(e) => {
                    return Err(e);
                },
            }
            assert(schemas@.take(i + 1).subrange(0, i as int) =~= schemas@.take(i as int));
            assert(output@.map_values(|v: String| v@) =~= ts_list(schemas@.take(i + 1)));
            i = i + 1;
        }
        assert(schemas@.take(i as int) =~= schemas@);
        Ok(join_strings(&output, " |"))
    }
}

} // verus!
