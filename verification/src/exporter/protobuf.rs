//! Protobuf messages for the schemas of the representation.
use vstd::prelude::*;
use vstd::string::StringExecFns;
use crate::exporter::helpers::{interface_name, Helpers};
use crate::ir::{lists_fit, FieldRestriction, IntermediateRepresentation, Schema};
use crate::text::{
    decimal, ends_with, lemma_ends_with_occurs, lemma_ends_with_three, lemma_occurs_behind,
    lemma_occurs_in_front, occurs, text_result, usize_to_decimal,
};

verus! {

broadcast use vstd::std_specs::vec::group_vec_axioms;

/// The Protobuf text of a top-level schema, or the message of the error.
pub open spec fn pb_schema(schema: Schema) -> Result<Seq<char>, Seq<char>>
    decreases schema, 0int,
{
    match schema {
        Schema::RefSchema { name } => Ok(interface_name(name@)),
        Schema::ObjectSchema { name, fields, unknown } => match name {
            Some(n) => pb_message(n@, fields@, unknown),
            None => Err("Protobuf can't handle ObjectSchema without name"@),
        },
        Schema::StringSchema { .. } => Ok("string"@),
        Schema::IntSchema { .. } => Ok("int64"@),
        Schema::FloatSchema { .. } => Ok("double"@),
        Schema::BooleanSchema {  } => Ok("bool"@),
        Schema::ArraySchema { .. } => Err("Root Array must never occur"@),
        Schema::OneOf { .. } => Err("Root oneOf must never occur"@),
    }
}

/// The message named `name` with the given fields.
pub open spec fn pb_message(name: Seq<char>, fields: Seq<(String, FieldRestriction)>, unknown: bool) -> Result<
    Seq<char>,
    Seq<char>,
>
    decreases fields, 2int,
{
    if unknown {
        Ok("message "@ + name + " {\n\tvalue: string\n}\n"@)
    } else {
        match pb_fields(fields, 0) {
            Ok((body, _)) => Ok("message "@ + name + " {"@ + body + "\n}\n"@),
            Err(e) => Err(e),
        }
    }
}

/// The text of the fields of a message numbered on from `count`, and the
/// last field number given out.
pub open spec fn pb_fields(fields: Seq<(String, FieldRestriction)>, count: nat) -> Result<
    (Seq<char>, nat),
    Seq<char>,
>
    decreases fields, 1int,
{
    if fields.len() == 0 {
        Ok((Seq::empty(), count))
    } else {
        match pb_field(fields[0].0@, fields[0].1.base, count) {
            Ok((text, next)) => match pb_fields(fields.subrange(1, fields.len() as int), next) {
                Ok((rest, last)) => Ok((text + rest, last)),
                Err(e) => Err(e),
            },
            Err(e) => Err(e),
        }
    }
}

/// The text of the field `key` of schema `base`, after `count` numbered
/// fields, with the field number given out last.
pub open spec fn pb_field(key: Seq<char>, base: Schema, count: nat) -> Result<(Seq<char>, nat), Seq<char>>
    decreases base, 2int,
{
    match base {
        Schema::ArraySchema { item } => match *item {
            Schema::ArraySchema { .. } => Err(
                "format Schema::ArraySchema of Schema::ArraySchema is not implemented"@,
            ),
            Schema::OneOf { values } => match pb_one_of(values@, 1) {
                Ok((added, one_of)) => Ok(
                    (
                        "\n\tmessage oneOf"@ + key + " "@ + added + one_of
                            + "\n\t}\n\t\trepeated oneOf"@ + key + " = "@ + decimal(count + 1)
                            + ";"@,
                        count + 1,
                    ),
                ),
                Err(e) => Err(e),
            },
            _ => match pb_schema(*item) {
                Ok(converted) => Ok(
                    (
                        "\n\trepeated "@ + converted + " "@ + key + " = "@ + decimal(count + 1)
                            + ";"@,
                        count + 1,
                    ),
                ),
                Err(e) => Err(e),
            },
        },
        Schema::OneOf { values } => match pb_one_of(values@, count + 1) {
            Ok((added, one_of)) => Ok((added + "oneof "@ + key + " "@ + one_of, count)),
            Err(e) => Err(e),
        },
        _ => match pb_message_field(base, key, count + 1) {
            Ok(text) => Ok((text, count + 1)),
            Err(e) => Err(e),
        },
    }
}

/// The line that declares field `field_name` with number `count`.
pub open spec fn pb_field_line(field_name: Seq<char>, count: nat) -> Seq<char> {
    "\n\t"@ + field_name + " = "@ + decimal(count) + ";"@
}

/// The text of a plain field: a nested message where the field is an object.
pub open spec fn pb_message_field(schema: Schema, field_name: Seq<char>, count: nat) -> Result<
    Seq<char>,
    Seq<char>,
>
    decreases schema, 1int,
{
    match schema {
        Schema::ObjectSchema { name, fields, unknown } => {
            if unknown {
                Err("format Schema::OneOf is not implemented"@)
            } else {
                let checked_name = match name {
                    Some(n) => n@,
                    None => "Unnamed"@ + decimal(count),
                };
                match pb_message(checked_name, fields@, false) {
                    Ok(rewrite) => Ok("\n\t"@ + rewrite + pb_field_line(field_name, count)),
                    Err(e) => Err(e),
                }
            }
        },
        _ => match pb_schema(schema) {
            Ok(_) => Ok(pb_field_line(field_name, count)),
            Err(e) => Err(e),
        },
    }
}

/// The message needed by the alternative `schema` of a one-of (if it is an
/// array), its field line with number `index`, and the number of array
/// messages after it, where `arrays` came before it.
pub open spec fn pb_one_of_item(schema: Schema, index: nat, arrays: nat) -> Result<
    (Seq<char>, Seq<char>, nat),
    Seq<char>,
>
    decreases schema, 1int,
{
    match schema {
        Schema::ArraySchema { item } => match pb_schema(*item) {
            Ok(converted) => Ok(
                (
                    "\n\tmessage Array"@ + decimal(arrays + 1) + " {repeated "@ + converted
                        + " values = 1;}"@,
                    "\n\t\tArray"@ + decimal(arrays + 1) + " oneOf"@ + decimal(index) + " = "@
                        + decimal(index) + ";"@,
                    arrays + 1,
                ),
            ),
            Err(e) => Err(e),
        },
        _ => match pb_schema(schema) {
            Ok(converted) => Ok(
                (
                    Seq::empty(),
                    "\n\t\t"@ + converted + " oneOf"@ + decimal(index) + " = "@ + decimal(index)
                        + ";"@,
                    arrays,
                ),
            ),
            Err(e) => Err(e),
        },
    }
}

/// The messages needed by the alternatives `schemas` of a one-of and their
/// field lines, numbered from `index`, after `arrays` array messages.
pub open spec fn pb_one_of_items(schemas: Seq<Schema>, index: nat, arrays: nat) -> Result<
    (Seq<char>, Seq<char>),
    Seq<char>,
>
    decreases schemas, 1int,
{
    if schemas.len() == 0 {
        Ok((Seq::empty(), Seq::empty()))
    } else {
        match pb_one_of_item(schemas[0], index, arrays) {
            Ok((needed, line, next)) => match pb_one_of_items(
                schemas.subrange(1, schemas.len() as int),
                index + 1,
                next,
            ) {
                Ok((more_needed, more_lines)) => Ok((needed + more_needed, line + more_lines)),
                Err(e) => Err(e),
            },
            Err(e) => Err(e),
        }
    }
}

/// The messages a one-of needs and its block of alternatives, numbered from `start`.
pub open spec fn pb_one_of(schemas: Seq<Schema>, start: nat) -> Result<(Seq<char>, Seq<char>), Seq<char>>
    decreases schemas, 2int,
{
    match pb_one_of_items(schemas, start, 0) {
        Ok((needed, fields)) => Ok(
            (
                if needed.len() > 0 { needed + "\n\t"@ } else { needed },
                "{"@ + fields + "\n\t}"@,
            ),
        ),
        Err(e) => Err(e),
    }
}

/// The Protobuf text of a list of schemas, or the first error met.
pub open spec fn pb_export(schemas: Seq<Schema>) -> Result<Seq<char>, Seq<char>>
    decreases schemas.len(),
{
    if schemas.len() == 0 {
        Ok(Seq::empty())
    } else {
        match pb_schema(schemas[0]) {
            Ok(converted) => match pb_export(schemas.subrange(1, schemas.len() as int)) {
                Ok(rest) => Ok(converted + rest),
                Err(e) => Err(e),
            },
            Err(e) => Err(e),
        }
    }
}

/// Adding a schema to a representation appends the schema's Protobuf text to
/// the export of the schemas before it; where either fails, the export fails
/// with the first error met.
pub proof fn law_export_after_add_schema(schemas: Seq<Schema>, schema: Schema)
    ensures
        pb_export(schemas.push(schema)) == match pb_export(schemas) {
            Ok(before) => match pb_schema(schema) {
                Ok(text) => Ok(before + text),
                Err(e) => Err(e),
            },
            Err(e) => Err(e),
        },
    decreases schemas.len(),
{
    let all = schemas.push(schema);
    if schemas.len() == 0 {
        assert(all.subrange(1, all.len() as int) =~= Seq::<Schema>::empty());
        assert(all[0] == schema);
        assert(pb_export(all.subrange(1, all.len() as int)) == Ok::<Seq<char>, Seq<char>>(Seq::empty()));
        match pb_schema(schema) {
            Ok(text) => {
                assert(text + Seq::<char>::empty() =~= Seq::<char>::empty() + text);
            },
            Err(_) => {},
        }
    } else {
        let rest = schemas.subrange(1, schemas.len() as int);
        assert(all.subrange(1, all.len() as int) =~= rest.push(schema));
        assert(all[0] == schemas[0]);
        law_export_after_add_schema(rest, schema);
        match pb_schema(schemas[0]) {
            Ok(first) => match pb_export(rest) {
                Ok(middle) => match pb_schema(schema) {
                    Ok(text) => {
                        assert(first + (middle + text) =~= (first + middle) + text);
                    },
                    Err(_) => {},
                },
                Err(_) => {},
            },
            Err(_) => {},
        }
    }
}

/// The number of fields that take a field number: all but the one-ofs.
pub open spec fn numbered_fields(fields: Seq<(String, FieldRestriction)>) -> nat
    decreases fields.len(),
{
    if fields.len() == 0 {
        0
    } else {
        (if fields[0].1.base is OneOf {
            0nat
        } else {
            1nat
        }) + numbered_fields(fields.subrange(1, fields.len() as int))
    }
}

/// A field takes the number after the last one given out, unless it is a
/// one-of, which takes none: array fields and plain fields alike.
pub proof fn law_field_number(key: Seq<char>, base: Schema, count: nat)
    ensures
        pb_field(key, base, count) matches Ok((_, next)) ==> next == count + if base is OneOf {
            0nat
        } else {
            1nat
        },
{
}

/// The text of a plain field ends with its number.
proof fn lemma_message_field_ends_with_number(schema: Schema, key: Seq<char>, number: nat)
    ensures
        pb_message_field(schema, key, number) matches Ok(text) ==> ends_with(
            text,
            " = "@ + decimal(number) + ";"@,
        ),
{
    if let Ok(text) = pb_message_field(schema, key, number) {
        if let Schema::ObjectSchema { name, fields, unknown } = schema {
            let checked_name = match name {
                Some(n) => n@,
                None => "Unnamed"@ + decimal(number),
            };
            let rewrite = pb_message(checked_name, fields@, false)->Ok_0;
            assert(text =~= "\n\t"@ + rewrite + ("\n\t"@ + key) + " = "@ + decimal(number) + ";"@);
            lemma_ends_with_three("\n\t"@ + rewrite + ("\n\t"@ + key), " = "@, decimal(number), ";"@);
        } else {
            lemma_ends_with_three("\n\t"@ + key, " = "@, decimal(number), ";"@);
        }
    }
}

/// The text of an array field ends with its number.
proof fn lemma_array_field_ends_with_number(key: Seq<char>, item: Schema, count: nat)
    ensures
        pb_field(key, Schema::ArraySchema { item: Box::new(item) }, count) matches Ok((text, next))
            ==> ends_with(text, " = "@ + decimal(next) + ";"@),
{
    let number = decimal(count + 1);
    match item {
        Schema::OneOf { values } => {
            if let Ok((added, one_of)) = pb_one_of(values@, 1) {
                lemma_ends_with_three(
                    "\n\tmessage oneOf"@ + key + " "@ + added + one_of + "\n\t}\n\t\trepeated oneOf"@
                        + key,
                    " = "@,
                    number,
                    ";"@,
                );
            }
        },
        Schema::ArraySchema { .. } => {},
        _ => {
            if let Ok(converted) = pb_schema(item) {
                lemma_ends_with_three("\n\trepeated "@ + converted + " "@ + key, " = "@, number, ";"@);
            }
        },
    }
}

/// The text of a field that is not a one-of ends with its number.
pub proof fn law_field_text_ends_with_number(key: Seq<char>, base: Schema, count: nat)
    ensures
        pb_field(key, base, count) matches Ok((text, next)) ==> !(base is OneOf) ==> ends_with(
            text,
            " = "@ + decimal(next) + ";"@,
        ),
{
    match base {
        Schema::ArraySchema { item } => {
            assert(base == Schema::ArraySchema { item: Box::new(*item) });
            lemma_array_field_ends_with_number(key, *item, count);
        },
        Schema::OneOf { .. } => {},
        _ => {
            lemma_message_field_ends_with_number(base, key, count + 1);
        },
    }
}

/// Within one message the fields are numbered one after the other: after
/// fields numbered from `count`, the last number given out is `count` plus
/// the number of fields that are not one-ofs. So in a message the k-th such
/// field has number k, and no two fields share a number.
pub proof fn law_fields_numbered(fields: Seq<(String, FieldRestriction)>, count: nat)
    ensures
        pb_fields(fields, count) matches Ok((_, last)) ==> last == count + numbered_fields(fields),
    decreases fields.len(),
{
    if fields.len() > 0 {
        law_field_number(fields[0].0@, fields[0].1.base, count);
        match pb_field(fields[0].0@, fields[0].1.base, count) {
            Ok((_, next)) => {
                law_fields_numbered(fields.subrange(1, fields.len() as int), next);
            },
            Err(_) => {},
        }
    }
}

/// The declaration of the alternative numbered `index` of a one-of.
pub open spec fn alternative_number(index: nat) -> Seq<char> {
    " oneOf"@ + decimal(index) + " = "@ + decimal(index) + ";"@
}

/// An alternative of a one-of is declared with its own number, and an array
/// alternative takes the next array message.
pub proof fn law_one_of_item(schema: Schema, index: nat, arrays: nat)
    ensures
        pb_one_of_item(schema, index, arrays) matches Ok((_, line, next)) ==> {
            &&& ends_with(line, alternative_number(index))
            &&& next == arrays + if schema is ArraySchema {
                1nat
            } else {
                0nat
            }
        },
{
    if let Ok((_, line, _)) = pb_one_of_item(schema, index, arrays) {
        match schema {
            Schema::ArraySchema { .. } => {
                let front = "\n\t\tArray"@ + decimal(arrays + 1);
                assert(line =~= front + " oneOf"@ + decimal(index) + (" = "@ + decimal(index) + ";"@));
                lemma_ends_with_three(front, " oneOf"@ + decimal(index), " = "@ + decimal(index), ";"@);
                assert(front + " oneOf"@ + decimal(index) + (" = "@ + decimal(index) + ";"@) =~= front + (
                " oneOf"@ + decimal(index)) + (" = "@ + decimal(index)) + ";"@);
                assert(alternative_number(index) =~= " oneOf"@ + decimal(index) + (" = "@ + decimal(index))
                    + ";"@);
            },
            _ => {
                let converted = pb_schema(schema)->Ok_0;
                let front = "\n\t\t"@ + converted;
                assert(line =~= front + (" oneOf"@ + decimal(index)) + (" = "@ + decimal(index)) + ";"@);
                lemma_ends_with_three(front, " oneOf"@ + decimal(index), " = "@ + decimal(index), ";"@);
                assert(alternative_number(index) =~= " oneOf"@ + decimal(index) + (" = "@ + decimal(index))
                    + ";"@);
            },
        }
    }
}

/// The alternatives of a one-of are numbered one after the other: the
/// alternative at position `i` is declared with number `index + i`.
pub proof fn law_one_of_numbered(schemas: Seq<Schema>, index: nat, arrays: nat)
    ensures
        pb_one_of_items(schemas, index, arrays) matches Ok((_, fields)) ==> forall|i: int|
            0 <= i < schemas.len() ==> #[trigger] occurs(fields, alternative_number((index + i) as nat)),
    decreases schemas.len(),
{
    if schemas.len() > 0 {
        if let Ok((_, fields)) = pb_one_of_items(schemas, index, arrays) {
            let (_, line, next) = pb_one_of_item(schemas[0], index, arrays)->Ok_0;
            let rest = schemas.subrange(1, schemas.len() as int);
            let (_, more) = pb_one_of_items(rest, index + 1, next)->Ok_0;
            assert(fields == line + more);
            law_one_of_item(schemas[0], index, arrays);
            law_one_of_numbered(rest, index + 1, next);
            assert forall|i: int| 0 <= i < schemas.len() implies #[trigger] occurs(
                fields,
                alternative_number((index + i) as nat),
            ) by {
                if i == 0 {
                    lemma_ends_with_occurs(line, alternative_number(index));
                    lemma_occurs_in_front(line, more, alternative_number(index));
                } else {
                    assert(((index + 1) + (i - 1)) as nat == (index + i) as nat);
                    assert(occurs(more, alternative_number(((index + 1) + (i - 1)) as nat)));
                    lemma_occurs_behind(line, more, alternative_number((index + i) as nat));
                }
            }
        }
    }
}

/// The text of a one-of result.
pub open spec fn pair_result(r: Result<(String, String), &'static str>) -> Result<
    (Seq<char>, Seq<char>),
    Seq<char>,
> {
    match r {
        Ok((a, b)) => Ok((a@, b@)),
        Err(e) => Err(e@),
    }
}

spec fn after(prefix: Seq<char>, r: Result<Seq<char>, Seq<char>>) -> Result<Seq<char>, Seq<char>> {
    match r {
        Ok(t) => Ok(prefix + t),
        Err(e) => Err(e),
    }
}

spec fn after_count(prefix: Seq<char>, r: Result<(Seq<char>, nat), Seq<char>>) -> Result<
    (Seq<char>, nat),
    Seq<char>,
> {
    match r {
        Ok((t, c)) => Ok((prefix + t, c)),
        Err(e) => Err(e),
    }
}

spec fn after_pair(a: Seq<char>, b: Seq<char>, r: Result<(Seq<char>, Seq<char>), Seq<char>>) -> Result<
    (Seq<char>, Seq<char>),
    Seq<char>,
> {
    match r {
        Ok((x, y)) => Ok((a + x, b + y)),
        Err(e) => Err(e),
    }
}

/// One step of the alternatives of a one-of, from the item at `i` on.
proof fn lemma_one_of_step(schemas: Seq<Schema>, i: int, index: nat, arrays: nat)
    requires
        0 <= i < schemas.len(),
    ensures
        pb_one_of_items(schemas.subrange(i, schemas.len() as int), index, arrays) == match pb_one_of_item(
            schemas[i],
            index,
            arrays,
        ) {
            Ok((needed, line, next)) => match pb_one_of_items(
                schemas.subrange(i + 1, schemas.len() as int),
                index + 1,
                next,
            ) {
                Ok((more_needed, more_lines)) => Ok((needed + more_needed, line + more_lines)),
                Err(e) => Err(e),
            },
            Err(e) => Err(e),
        },
{
    let rest = schemas.subrange(i, schemas.len() as int);
    assert(rest[0] == schemas[i]);
    assert(rest.subrange(1, rest.len() as int) =~= schemas.subrange(i + 1, schemas.len() as int));
}

/// One step of the fields of a message, from the field at `i` on.
proof fn lemma_fields_step(fields: Seq<(String, FieldRestriction)>, i: int, count: nat)
    requires
        0 <= i < fields.len(),
    ensures
        pb_fields(fields.subrange(i, fields.len() as int), count) == match pb_field(
            fields[i].0@,
            fields[i].1.base,
            count,
        ) {
            Ok((text, next)) => match pb_fields(fields.subrange(i + 1, fields.len() as int), next) {
                Ok((rest, last)) => Ok((text + rest, last)),
                Err(e) => Err(e),
            },
            Err(e) => Err(e),
        },
{
    let rest = fields.subrange(i, fields.len() as int);
    assert(rest[0] == fields[i]);
    assert(rest.subrange(1, rest.len() as int) =~= fields.subrange(i + 1, fields.len() as int));
}

pub struct Protobuf {}

impl Protobuf {
    /// The Protobuf text of all schemas of `ir` in order, or the first error met.
    pub fn export(ir: &IntermediateRepresentation) -> (r: Result<String, &'static str>)
        requires
            forall|i: int| 0 <= i < ir.schemas@.len() ==> lists_fit(#[trigger] ir.schemas@[i]),
        ensures
            text_result(r) == pb_export(ir.schemas@),
    {
        let ghost schemas = ir.schemas@;
        let mut output = String::new();
        let mut i: usize = 0;
        assert(schemas.subrange(0, schemas.len() as int) =~= schemas);
        while i < ir.schemas.len()
            invariant
                i <= schemas.len(),
                schemas == ir.schemas@,
                forall|j: int| 0 <= j < schemas.len() ==> lists_fit(#[trigger] schemas[j]),
                pb_export(schemas) == after(
                    output@,
                    pb_export(schemas.subrange(i as int, schemas.len() as int)),
                ),
            decreases schemas.len() - i,
        {
            let ghost rest = schemas.subrange(i as int, schemas.len() as int);
            assert(rest[0] == schemas[i as int]);
            assert(rest.subrange(1, rest.len() as int) =~= schemas.subrange(
                i + 1,
                schemas.len() as int,
            ));
            match Protobuf::format_schema(&ir.schemas[i]) {
                Ok(converted) => {
                    let ghost before = output@;
                    output.append(converted.as_str());
                    proof {
                        match pb_export(schemas.subrange(i + 1, schemas.len() as int)) {
                            Ok(t) => {
                                assert(before + (converted@ + t) =~= output@ + t);
                            },
                            Err(_) => {},
                        }
                    }
                },
                Err(e) => {
                    return Err(e);
                },
            }
            i = i + 1;
        }
        assert(schemas.subrange(i as int, schemas.len() as int) =~= Seq::<Schema>::empty());
        assert(output@ + Seq::<char>::empty() =~= output@);
        Ok(output)
    }

    fn format_schema(schema: &Schema) -> (r: Result<String, &'static str>)
        requires
            lists_fit(*schema),
        ensures
            text_result(r) == pb_schema(*schema),
        decreases schema, 0int,
    {
        match schema {
            Schema::RefSchema { name } => Helpers::format_interface_name(name),
            Schema::ObjectSchema { name, fields, unknown } => {
                match name {
                    Some(name) => Protobuf::format_message(name, fields, unknown),
                    None => Err("Protobuf can't handle ObjectSchema without name"),
                }
            },
            Schema::StringSchema { .. } => Ok(String::from_str("string")),
            Schema::IntSchema { .. } => Ok(String::from_str("int64")),
            Schema::FloatSchema { .. } => Ok(String::from_str("double")),
            Schema::BooleanSchema {  } => Ok(String::from_str("bool")),
            Schema::ArraySchema { .. } => Err("Root Array must never occur"),
            Schema::OneOf { .. } => Err("Root oneOf must never occur"),
        }
    }

    #[verifier::spinoff_prover]
    fn format_message(name: &String, fields: &Vec<(String, FieldRestriction)>, unknown: &bool) -> (r:
        Result<String, &'static str>)
        requires
            fields@.len() <= isize::MAX,
            forall|i: int| 0 <= i < fields@.len() ==> lists_fit(#[trigger] fields@[i].1.base),
        ensures
            text_result(r) == pb_message(name@, fields@, *unknown),
        decreases fields, 2int,
    {
        let message_name = match Helpers::format_message_name(name) {
            Ok(n) => n,
            Err(e) => {
                return Err(e);
            },
        };
        if *unknown {
            let mut output = String::from_str("message ");
            output.append(message_name.as_str());
            output.append(" {\n\tvalue: string\n}\n");
            return Ok(output);
        }
        let ghost all = fields@;
        let mut output = String::from_str("message ");
        output.append(message_name.as_str());
        output.append(" {");
        let ghost header = output@;
        let ghost mut body = Seq::<char>::empty();
        let mut field_count: usize = 0;
        let mut i: usize = 0;
        assert(all.subrange(0, all.len() as int) =~= all);
        assert(header + Seq::<char>::empty() =~= header);
        while i < fields.len()
            invariant
                i <= all.len(),
                all == fields@,
                !*unknown,
                all.len() <= isize::MAX,
                forall|j: int| 0 <= j < all.len() ==> lists_fit(#[trigger] all[j].1.base),
                field_count <= i,
                header == "message "@ + name@ + " {"@,
                output@ == header + body,
                pb_fields(all, 0) == after_count(
                    body,
                    pb_fields(all.subrange(i as int, all.len() as int), field_count as nat),
                ),
            decreases all.len() - i,
        {
            let ghost rest = all.subrange(i as int, all.len() as int);
            proof {
                lemma_fields_step(all, i as int, field_count as nat);
                assert(decreases_to!(fields => fields[i as int]));
                assert(lists_fit(all[i as int].1.base));
            }
            let (k, v) = &fields[i];
            match Protobuf::format_field(k, &v.base, field_count) {
                Ok((text, next_count)) => {
                    output.append(text.as_str());
                    proof {
                        match pb_fields(all.subrange(i + 1, all.len() as int), next_count as nat) {
                            Ok((t, c)) => {
                                assert(body + (text@ + t) =~= (body + text@) + t);
                            },
                            Err(_) => {},
                        }
                        body = body + text@;
                    }
                    field_count = next_count;
                },
                Err(e) => {
                    assert(pb_fields(rest, field_count as nat) == Err::<(Seq<char>, nat), Seq<char>>(e@));
                    assert(pb_fields(all, 0) == Err::<(Seq<char>, nat), Seq<char>>(e@));
                    return Err(e);
                },
            }
            i = i + 1;
        }
        assert(all.subrange(i as int, all.len() as int) =~= Seq::<(String, FieldRestriction)>::empty());
        assert(body + Seq::<char>::empty() =~= body);
        output.append("\n}\n");
        Ok(output)
    }

    /// The text of one field of a message after `field_count` numbered
    /// fields, and the last field number given out after it.
    fn format_field(k: &String, base: &Schema, field_count: usize) -> (r: Result<
        (String, usize),
        &'static str,
    >)
        requires
            lists_fit(*base),
            field_count <= isize::MAX,
        ensures
            match r {
                Ok((text, next)) => {
                    &&& pb_field(k@, *base, field_count as nat) == Ok::<(Seq<char>, nat), Seq<char>>(
                        (text@, next as nat),
                    )
                    &&& next <= field_count + 1
                },
                Err(e) => pb_field(k@, *base, field_count as nat) == Err::<(Seq<char>, nat), Seq<char>>(
                    e@,
                ),
            },
        decreases base, 2int,
    {
        match base {
            Schema::ArraySchema { item } => {
                let field_count = field_count + 1;
                match &**item {
                    Schema::ArraySchema { .. } => {
                        Err("format Schema::ArraySchema of Schema::ArraySchema is not implemented")
                    },
                    Schema::OneOf { values } => {
                        proof {
                            reveal_with_fuel(lists_fit, 2);
                        }
                        match Protobuf::format_one_of(values, &1) {
                            Ok((added, one_of)) => {
                                let mut output = String::from_str("\n\tmessage oneOf");
                                output.append(k.as_str());
                                output.append(" ");
                                output.append(added.as_str());
                                output.append(one_of.as_str());
                                output.append("\n\t}\n\t\trepeated oneOf");
                                output.append(k.as_str());
                                output.append(" = ");
                                let number = usize_to_decimal(field_count);
                                output.append(number.as_str());
                                output.append(";");
                                Ok((output, field_count))
                            },
                            Err(e) => Err(e),
                        }
                    },
                    item_schema => {
                        match Protobuf::format_schema(item_schema) {
                            Ok(converted) => {
                                let mut output = String::from_str("\n\trepeated ");
                                output.append(converted.as_str());
                                output.append(" ");
                                output.append(k.as_str());
                                output.append(" = ");
                                let number = usize_to_decimal(field_count);
                                output.append(number.as_str());
                                output.append(";");
                                Ok((output, field_count))
                            },
                            Err(e) => Err(e),
                        }
                    },
                }
            },
            Schema::OneOf { values } => {
                let start_count = field_count + 1;
                match Protobuf::format_one_of(values, &start_count) {
                    Ok((messages_added, one_of)) => {
                        let mut output = String::new();
                        output.append(messages_added.as_str());
                        output.append("oneof ");
                        output.append(k.as_str());
                        output.append(" ");
                        output.append(one_of.as_str());
                        Ok((output, field_count))
                    },
                    Err(e) => Err(e),
                }
            },
            sch => {
                let field_count = field_count + 1;
                match Protobuf::format_message_field(sch, k, &field_count) {
                    Ok(converted) => Ok((converted, field_count)),
                    Err(e) => Err(e),
                }
            },
        }
    }

    fn format_message_field(schema: &Schema, field_name: &String, field_count: &usize) -> (r: Result<
        String,
        &'static str,
    >)
        requires
            lists_fit(*schema),
        ensures
            text_result(r) == pb_message_field(*schema, field_name@, *field_count as nat),
        decreases schema, 1int,
    {
        match schema {
            Schema::ObjectSchema { name, fields, unknown } => {
                if *unknown {
                    Err("format Schema::OneOf is not implemented")
                } else {
                    let checked_name = match name {
                        Some(n) => n.clone(),
                        None => {
                            let mut unnamed = String::from_str("Unnamed");
                            let number = usize_to_decimal(*field_count);
                            unnamed.append(number.as_str());
                            unnamed
                        },
                    };
                    match Protobuf::format_message(&checked_name, fields, &false) {
                        Ok(rewrite_message) => {
                            let mut output = String::from_str("\n\t");
                            output.append(rewrite_message.as_str());
                            Protobuf::write_message_field(
                                &mut output,
                                checked_name.as_str(),
                                field_name.as_str(),
                                field_count,
                            );
                            Ok(output)
                        },
                        Err(e) => Err(e),
                    }
                }
            },
            sch => {
                match Protobuf::format_schema(sch) {
                    Ok(field_type) => {
                        let mut output = String::new();
                        Protobuf::write_message_field(
                            &mut output,
                            field_type.as_str(),
                            field_name.as_str(),
                            field_count,
                        );
                        Ok(output)
                    },
                    Err(e) => Err(e),
                }
            },
        }
    }

    #[verifier::spinoff_prover]
    fn format_one_of(schemas: &Vec<Schema>, start_index: &usize) -> (r: Result<
        (String, String),
        &'static str,
    >)
        requires
            schemas@.len() <= isize::MAX,
            *start_index <= isize::MAX + 1,
            forall|i: int| 0 <= i < schemas@.len() ==> lists_fit(#[trigger] schemas@[i]),
        ensures
            pair_result(r) == pb_one_of(schemas@, *start_index as nat),
        decreases schemas, 2int,
    {
        let ghost all = schemas@;
        let mut needed_messages = String::new();
        let mut fields = String::new();
        let mut needed_messages_index: usize = 0;
        let mut i: usize = 0;
        assert(all.subrange(0, all.len() as int) =~= all);
        assert(needed_messages@ + Seq::<char>::empty() =~= needed_messages@);
        while i < schemas.len()
            invariant
                i <= all.len(),
                all == schemas@,
                all.len() <= isize::MAX,
                *start_index <= isize::MAX + 1,
                needed_messages_index <= i,
                forall|j: int| 0 <= j < all.len() ==> lists_fit(#[trigger] all[j]),
                pb_one_of_items(all, *start_index as nat, 0) == after_pair(
                    needed_messages@,
                    fields@,
                    pb_one_of_items(
                        all.subrange(i as int, all.len() as int),
                        (*start_index + i) as nat,
                        needed_messages_index as nat,
                    ),
                ),
            decreases all.len() - i,
        {
            proof {
                lemma_one_of_step(all, i as int, (*start_index + i) as nat, needed_messages_index as nat);
                assert(decreases_to!(schemas => schemas[i as int]));
                assert(lists_fit(all[i as int]));
            }
            let index = *start_index + i;
            match Protobuf::format_one_of_item(&schemas[i], index, needed_messages_index) {
                Ok((needed, line, next)) => {
                    let ghost before_needed = needed_messages@;
                    let ghost before_fields = fields@;
                    needed_messages.append(needed.as_str());
                    fields.append(line.as_str());
                    proof {
                        match pb_one_of_items(
                            all.subrange(i + 1, all.len() as int),
                            (*start_index + i + 1) as nat,
                            next as nat,
                        ) {
                            Ok((x, y)) => {
                                assert(before_needed + (needed@ + x) =~= needed_messages@ + x);
                                assert(before_fields + (line@ + y) =~= fields@ + y);
                            },
                            Err(_) => {},
                        }
                    }
                    needed_messages_index = next;
                },
                Err(e) => {
                    return Err(e);
                },
            }
            i = i + 1;
        }
        assert(all.subrange(i as int, all.len() as int) =~= Seq::<Schema>::empty());
        assert(needed_messages@ + Seq::<char>::empty() =~= needed_messages@);
        assert(fields@ + Seq::<char>::empty() =~= fields@);
        if !needed_messages.as_str().is_empty() {
            needed_messages.append("\n\t");
        }
        let mut block = String::from_str("{");
        block.append(fields.as_str());
        block.append("\n\t}");
        Ok((needed_messages, block))
    }

    /// One alternative of a one-of: the message it needs, its field line with
    /// number `index`, and the count of array messages after it.
    fn format_one_of_item(schema: &Schema, index: usize, arrays: usize) -> (r: Result<
        (String, String, usize),
        &'static str,
    >)
        requires
            lists_fit(*schema),
            arrays < usize::MAX,
        ensures
            match r {
                Ok((needed, line, next)) => {
                    &&& pb_one_of_item(*schema, index as nat, arrays as nat) == Ok::<
                        (Seq<char>, Seq<char>, nat),
                        Seq<char>,
                    >((needed@, line@, next as nat))
                    &&& next <= arrays + 1
                },
                Err(e) => pb_one_of_item(*schema, index as nat, arrays as nat) == Err::<
                    (Seq<char>, Seq<char>, nat),
                    Seq<char>,
                >(e@),
            },
        decreases schema, 1int,
    {
        match schema {
            Schema::ArraySchema { item } => {
                match Protobuf::format_schema(item) {
                    Ok(converted) => {
                        let arrays = arrays + 1;
                        let number = usize_to_decimal(arrays);
                        let position = usize_to_decimal(index);
                        let mut needed = String::from_str("\n\tmessage Array");
                        needed.append(number.as_str());
                        needed.append(" {repeated ");
                        needed.append(converted.as_str());
                        needed.append(" values = 1;}");
                        let mut line = String::from_str("\n\t\tArray");
                        line.append(number.as_str());
                        line.append(" oneOf");
                        line.append(position.as_str());
                        line.append(" = ");
                        line.append(position.as_str());
                        line.append(";");
                        Ok((needed, line, arrays))
                    },
                    Err(e) => Err(e),
                }
            },
            sch => {
                match Protobuf::format_schema(sch) {
                    Ok(converted) => {
                        let position = usize_to_decimal(index);
                        let mut line = String::from_str("\n\t\t");
                        line.append(converted.as_str());
                        line.append(" oneOf");
                        line.append(position.as_str());
                        line.append(" = ");
                        line.append(position.as_str());
                        line.append(";");
                        Ok((String::new(), line, arrays))
                    },
                    Err(e) => Err(e),
                }
            },
        }
    }

    /// Appends the declaration of field `field_name` with number `field_count`
    /// to `output`; `field_type` is not written.
    fn write_message_field(output: &mut String, field_type: &str, field_name: &str, field_count: &usize)
        ensures
            final(output)@ == old(output)@ + pb_field_line(field_name@, *field_count as nat),
    {
        output.append("\n\t");
        output.append(field_name);
        output.append(" = ");
        let number = usize_to_decimal(*field_count);
        output.append(number.as_str());
        output.append(";");
    }
}

} // verus!
