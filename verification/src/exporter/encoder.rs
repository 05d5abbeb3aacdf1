//! TypeScript functions that encode the schemas of the representation for Protobuf.
use vstd::prelude::*;
use vstd::string::StringExecFns;
use crate::exporter::helpers::{interface_name, Helpers};
use crate::ir::{FieldRestriction, IntermediateRepresentation, Schema};
use crate::text::{
    join, join_strings, law_join_holds_items, lemma_occurs_in_middle, lemma_occurs_transitive, occurs,
    occurs_at, starts_with, text_result,
};
use crate::exporter::interfaces::nested_array;

verus! {

broadcast use vstd::std_specs::vec::group_vec_axioms;

/// The helper functions that every encoder file starts with.
pub open spec fn encoder_prelude() -> Seq<char> {
    "\
        export function encodeArray<T, U>( encodeFct(T)=> V): (args: T[]) =>  U[] {return (args) => args.map(encodeFct)}\n\n\
        export function identity<T>( arg: T): T {return arg}\n\n\
        "@
}

/// The name of the encoder function for the schema named `name`.
pub open spec fn encoder_name(name: Seq<char>) -> Seq<char> {
    "encode"@ + interface_name(name)
}

/// The encoder function of a top-level schema, or the message of the error.
pub open spec fn enc_root_schema(schema: Schema) -> Result<Seq<char>, Seq<char>> {
    match schema {
        Schema::RefSchema { .. } => Err("Schema::RefSchema not implemented"@),
        Schema::ObjectSchema { name, fields, unknown } => match name {
            Some(n) => enc_object(n@, fields@, unknown),
            None => Err("can't name a function to encode an unnamed object"@),
        },
        Schema::StringSchema { .. } => Err("Schema::StringSchema not implemented"@),
        Schema::IntSchema { .. } => Err("Schema::IntSchema not implemented"@),
        Schema::FloatSchema { .. } => Err("Schema::FloatSchema not implemented"@),
        Schema::BooleanSchema {  } => Err("Schema::BooleanSchema not implemented"@),
        Schema::ArraySchema { .. } => Err("root Schema::ArraySchema not implemented"@),
        Schema::OneOf { .. } => Err("Schema::OneOf not implemented"@),
    }
}

/// The exported encoder function for the object named `name`.
pub open spec fn enc_object(name: Seq<char>, fields: Seq<(String, FieldRestriction)>, unknown: bool) -> Result<
    Seq<char>,
    Seq<char>,
> {
    let iname = interface_name(name);
    match enc_object_fields(fields, unknown) {
        Ok(converted) => Ok(
            "export function encode"@ + iname + "(arg: "@ + iname + (if unknown {
                "): {value: string} "@
            } else {
                "): {[x: string]: any} "@
            }) + converted + "\n\n"@,
        ),
        Err(e) => Err(e),
    }
}

/// The body of the encoder of an object with the given fields.
pub open spec fn enc_object_fields(fields: Seq<(String, FieldRestriction)>, unknown: bool) -> Result<
    Seq<char>,
    Seq<char>,
>
    decreases fields, 2int,
{
    if unknown {
        Ok("{\n\treturn {value: JSON.stringify(arg)}\n}"@)
    } else {
        match enc_field_list(fields) {
            Ok(list) => Ok("{\n\treturn {\n\t"@ + join(list, ",\n\t"@) + "\n}\n}"@),
            Err(e) => Err(e),
        }
    }
}

/// The encoded entry of a field named `key` whose encoder is `converted`.
pub open spec fn enc_entry(key: Seq<char>, required: bool, converted: Seq<char>) -> Seq<char> {
    if required {
        if converted.len() == 0 {
            key + ": arg."@ + key
        } else {
            key + ": "@ + converted + "(arg."@ + key + ")"@
        }
    } else {
        key + ": arg."@ + key + "?"@ + converted + "(arg."@ + key + "): null"@
    }
}

/// The entry of a field starts with the field's name and carries the field's
/// encoder, whether the field is required or not.
pub proof fn law_entry_carries_encoder(key: Seq<char>, required: bool, converted: Seq<char>)
    ensures
        starts_with(enc_entry(key, required, converted), key),
        occurs(enc_entry(key, required, converted), converted),
{
    let entry = enc_entry(key, required, converted);
    if required {
        if converted.len() == 0 {
            assert(entry.subrange(0, 0) =~= converted);
            assert(occurs_at(entry, converted, 0));
        } else {
            let front = key + ": "@;
            assert(entry =~= front + converted + ("(arg."@ + key + ")"@));
            assert(entry.subrange(front.len() as int, (front.len() + converted.len()) as int) =~= converted);
            assert(occurs_at(entry, converted, front.len() as int));
        }
    } else {
        let front = key + ": arg."@ + key + "?"@;
        assert(entry =~= front + converted + ("(arg."@ + key + "): null"@));
        assert(entry.subrange(front.len() as int, (front.len() + converted.len()) as int) =~= converted);
        assert(occurs_at(entry, converted, front.len() as int));
    }
    assert(entry.subrange(0, key.len() as int) =~= key);
}

/// The encoded entries of the fields, one per field, or the first error met.
pub open spec fn enc_field_list(fields: Seq<(String, FieldRestriction)>) -> Result<
    Seq<Seq<char>>,
    Seq<char>,
>
    decreases fields, 1int,
{
    if fields.len() == 0 {
        Ok(Seq::empty())
    } else {
        match enc_sub_schema(fields[0].1.base) {
            Ok(converted) => match enc_field_list(fields.subrange(1, fields.len() as int)) {
                Ok(rest) => Ok(
                    seq![enc_entry(fields[0].0@, fields[0].1.required, converted)] + rest,
                ),
                Err(e) => Err(e),
            },
            Err(e) => Err(e),
        }
    }
}

/// The encoder of a schema met inside another one; empty for primitives.
pub open spec fn enc_sub_schema(schema: Schema) -> Result<Seq<char>, Seq<char>>
    decreases schema, 0int,
{
    match schema {
        Schema::RefSchema { name } => Ok(encoder_name(name@)),
        Schema::ObjectSchema { name, fields, unknown } => match name {
            Some(n) => Ok(encoder_name(n@)),
            None => enc_object_fields(fields@, unknown),
        },
        Schema::ArraySchema { item } => enc_sub_array(*item),
        Schema::OneOf { .. } => Err("Schema::OneOf not implemented"@),
        _ => Ok(Seq::empty()),
    }
}

/// The encoder of an array whose items have schema `item`.
pub open spec fn enc_sub_array(item: Schema) -> Result<Seq<char>, Seq<char>>
    decreases item, 0int,
{
    match item {
        Schema::RefSchema { name } => Ok(encoder_name(name@)),
        Schema::ObjectSchema { name, fields, unknown } => match name {
            Some(n) => Ok(encoder_name(n@)),
            None => enc_object_fields(fields@, unknown),
        },
        Schema::ArraySchema { item } => match enc_sub_array(*item) {
            Ok(converted) => Ok("encodeArray("@ + converted + ")"@),
            Err(e) => Err(e),
        },
        Schema::OneOf { .. } => Err("Schema::OneOf not implemented"@),
        _ => Ok("encodeArray(identity)"@),
    }
}

/// The encoded entries of an object hold one entry per field, in order: the
/// entry of a field starts with its name and carries the encoder of its
/// schema, whether the field is required or not.
pub proof fn law_field_entries(fields: Seq<(String, FieldRestriction)>)
    ensures
        enc_field_list(fields) matches Ok(list) ==> {
            &&& list.len() == fields.len()
            &&& forall|i: int|
                0 <= i < fields.len() ==> {
                    &&& #[trigger] enc_sub_schema(fields[i].1.base) matches Ok(c) && occurs(list[i], c)
                    &&& starts_with(list[i], fields[i].0@)
                }
        },
    decreases fields.len(),
{
    if fields.len() > 0 {
        let rest = fields.subrange(1, fields.len() as int);
        law_field_entries(rest);
        if let Ok(list) = enc_field_list(fields) {
            let c = enc_sub_schema(fields[0].1.base)->Ok_0;
            let tail = enc_field_list(rest)->Ok_0;
            law_entry_carries_encoder(fields[0].0@, fields[0].1.required, c);
            assert forall|i: int| 0 <= i < fields.len() implies {
                &&& #[trigger] enc_sub_schema(fields[i].1.base) matches Ok(c) && occurs(list[i], c)
                &&& starts_with(list[i], fields[i].0@)
            } by {
                if i > 0 {
                    assert(fields[i] == rest[i - 1]);
                    assert(list[i] == tail[i - 1]);
                    assert(enc_sub_schema(rest[i - 1].1.base) matches Ok(c) && occurs(tail[i - 1], c));
                }
            }
        }
    }
}

/// The encoder body of an object carries the encoder of every field's
/// schema, required or not, and the name of every field.
pub proof fn law_object_fields_carry_encoders(fields: Seq<(String, FieldRestriction)>)
    ensures
        enc_object_fields(fields, false) matches Ok(body) ==> forall|i: int|
            0 <= i < fields.len() ==> {
                &&& #[trigger] enc_sub_schema(fields[i].1.base) matches Ok(c) && occurs(body, c)
                &&& occurs(body, fields[i].0@)
            },
{
    if let Ok(body) = enc_object_fields(fields, false) {
        let list = enc_field_list(fields)->Ok_0;
        let joined = join(list, ",\n\t"@);
        law_field_entries(fields);
        law_join_holds_items(list, ",\n\t"@);
        lemma_occurs_in_middle("{\n\treturn {\n\t"@, joined, "\n}\n}"@);
        assert forall|i: int| 0 <= i < fields.len() implies {
            &&& #[trigger] enc_sub_schema(fields[i].1.base) matches Ok(c) && occurs(body, c)
            &&& occurs(body, fields[i].0@)
        } by {
            let c = enc_sub_schema(fields[i].1.base)->Ok_0;
            assert(occurs(joined, list[i]));
            lemma_occurs_transitive(body, joined, list[i]);
            lemma_occurs_transitive(body, list[i], c);
            assert(occurs_at(list[i], fields[i].0@, 0));
            lemma_occurs_transitive(body, list[i], fields[i].0@);
        }
    }
}

/// `text` inside `n` calls of `encodeArray`.
pub open spec fn wrapped_in_arrays(text: Seq<char>, n: nat) -> Seq<char>
    decreases n,
{
    if n == 0 {
        text
    } else {
        "encodeArray("@ + wrapped_in_arrays(text, (n - 1) as nat) + ")"@
    }
}

/// Each level of arrays around the items of an array adds one call of
/// `encodeArray` around the encoder of the innermost items, whatever they are.
pub proof fn law_nested_array_encoder(item: Schema, n: nat)
    ensures
        enc_sub_array(nested_array(item, n)) == match enc_sub_array(item) {
            Ok(c) => Ok(wrapped_in_arrays(c, n)),
            Err(e) => Err(e),
        },
    decreases n,
{
    if n > 0 {
        law_nested_array_encoder(item, (n - 1) as nat);
    }
}

/// The encoder functions of a list of schemas, or the first error met.
pub open spec fn enc_schemas(schemas: Seq<Schema>) -> Result<Seq<char>, Seq<char>>
    decreases schemas.len(),
{
    if schemas.len() == 0 {
        Ok(Seq::empty())
    } else {
        match enc_root_schema(schemas[0]) {
            Ok(converted) => match enc_schemas(schemas.subrange(1, schemas.len() as int)) {
                Ok(rest) => Ok(converted + rest),
                Err(e) => Err(e),
            },
            Err(e) => Err(e),
        }
    }
}

/// The encoder file for a list of schemas: the prelude, then one function per schema.
pub open spec fn enc_export(schemas: Seq<Schema>) -> Result<Seq<char>, Seq<char>> {
    match enc_schemas(schemas) {
        Ok(body) => Ok(encoder_prelude() + body),
        Err(e) => Err(e),
    }
}

/// Adding a schema to a representation appends the schema's encoder function
/// to the encoder file of the schemas before it; where either fails, the
/// file fails with the first error met.
pub proof fn law_export_after_add_schema(schemas: Seq<Schema>, schema: Schema)
    ensures
        enc_export(schemas.push(schema)) == match enc_export(schemas) {
            Ok(before) => match enc_root_schema(schema) {
                Ok(text) => Ok(before + text),
                Err(e) => Err(e),
            },
            Err(e) => Err(e),
        },
{
    lemma_schemas_push(schemas, schema);
    match enc_schemas(schemas) {
        Ok(body) => match enc_root_schema(schema) {
            Ok(text) => {
                assert(encoder_prelude() + (body + text) =~= (encoder_prelude() + body) + text);
            },
            Err(_) => {},
        },
        Err(_) => {},
    }
}

proof fn lemma_schemas_push(schemas: Seq<Schema>, schema: Schema)
    ensures
        enc_schemas(schemas.push(schema)) == match enc_schemas(schemas) {
            Ok(before) => match enc_root_schema(schema) {
                Ok(text) => Ok(before + text),
                Err(e) => Err(e),
            },
            Err(e) => Err(e),
        },
    decreases schemas.len(),
{
    let all = schemas.push(schema);
    if schemas.len() == 0 {
        assert(all.subrange(1, all.len() as int) =~= Seq::<Schema>::empty());
        assert(all[0] == schema);
        assert(enc_schemas(all.subrange(1, all.len() as int)) == Ok::<Seq<char>, Seq<char>>(Seq::empty()));
        match enc_root_schema(schema) {
            Ok(text) => {
                assert(text + Seq::<char>::empty() =~= Seq::<char>::empty() + text);
            },
            Err(_) => {},
        }
    } else {
        let rest = schemas.subrange(1, schemas.len() as int);
        assert(all.subrange(1, all.len() as int) =~= rest.push(schema));
        assert(all[0] == schemas[0]);
        lemma_schemas_push(rest, schema);
        match enc_root_schema(schemas[0]) {
            Ok(first) => match enc_schemas(rest) {
                Ok(middle) => match enc_root_schema(schema) {
                    Ok(text) => {
                        assert(first + (middle + text) =~= (first + middle) + text);
                    },
                    Err(_) => {},
                },
                Err(_) => {},
            },
            Err(_) => {},
        }
    }
}

spec fn after(prefix: Seq<char>, r: Result<Seq<char>, Seq<char>>) -> Result<Seq<char>, Seq<char>> {
    match r {
        Ok(t) => Ok(prefix + t),
        Err(e) => Err(e),
    }
}

spec fn after_list(prefix: Seq<Seq<char>>, r: Result<Seq<Seq<char>>, Seq<char>>) -> Result<
    Seq<Seq<char>>,
    Seq<char>,
> {
    match r {
        Ok(t) => Ok(prefix + t),
        Err(e) => Err(e),
    }
}

pub struct TSProtobufEncoder {}

impl TSProtobufEncoder {
    /// The encoder file for the schemas of `ir`: the prelude, then the encoder
    /// function of each schema in order; or the first error met.
    pub fn export(ir: &IntermediateRepresentation) -> (r: Result<String, &'static str>)
        ensures
            text_result(r) == enc_export(ir.schemas@),
    {
        let ghost schemas = ir.schemas@;
        let mut output: String = String::from_str(
            "\
        export function encodeArray<T, U>( encodeFct(T)=> V): (args: T[]) =>  U[] {return (args) => args.map(encodeFct)}\n\n\
        export function identity<T>( arg: T): T {return arg}\n\n\
        ",
        );
        let ghost mut body = Seq::<char>::empty();
        let mut i: usize = 0;
        assert(schemas.subrange(0, schemas.len() as int) =~= schemas);
        assert(output@ + body =~= output@);
        while i < ir.schemas.len()
            invariant
                i <= schemas.len(),
                schemas == ir.schemas@,
                output@ == encoder_prelude() + body,
                enc_schemas(schemas) == after(
                    body,
                    enc_schemas(schemas.subrange(i as int, schemas.len() as int)),
                ),
            decreases schemas.len() - i,
        {
            let ghost rest = schemas.subrange(i as int, schemas.len() as int);
            assert(rest[0] == schemas[i as int]);
            assert(rest.subrange(1, rest.len() as int) =~= schemas.subrange(
                i + 1,
                schemas.len() as int,
            ));
            match TSProtobufEncoder::format_root_schema(&ir.schemas[i]) {
                Ok(converted) => {
                    output.append(converted.as_str());
                    proof {
                        match enc_schemas(schemas.subrange(i + 1, schemas.len() as int)) {
                            Ok(t) => {
                                assert(body + (converted@ + t) =~= (body + converted@) + t);
                            },
                            Err(_) => {},
                        }
                        assert(output@ =~= encoder_prelude() + (body + converted@));
                        body = body + converted@;
                    }
                },
                Err(e) => {
                    return Err(e);
                },
            }
            i = i + 1;
        }
        assert(schemas.subrange(i as int, schemas.len() as int) =~= Seq::<Schema>::empty());
        assert(body + Seq::<char>::empty() =~= body);
        Ok(output)
    }

    fn format_root_schema(schema: &Schema) -> (r: Result<String, &'static str>)
        ensures
            text_result(r) == enc_root_schema(*schema),
    {
        match schema {
            Schema::RefSchema { .. } => Err("Schema::RefSchema not implemented"),
            Schema::ObjectSchema { name, fields, unknown } => {
                match name {
                    Some(n) => TSProtobufEncoder::format_object(n, fields, unknown),
                    None => Err("can't name a function to encode an unnamed object"),
                }
            },
            Schema::StringSchema { .. } => Err("Schema::StringSchema not implemented"),
            Schema::IntSchema { .. } => Err("Schema::IntSchema not implemented"),
            Schema::FloatSchema { .. } => Err("Schema::FloatSchema not implemented"),
            Schema::BooleanSchema {  } => Err("Schema::BooleanSchema not implemented"),
            Schema::ArraySchema { item } => TSProtobufEncoder::format_root_array(item),
            Schema::OneOf { .. } => Err("Schema::OneOf not implemented"),
        }
    }

    fn format_sub_schema(schema: &Schema) -> (r: Result<String, &'static str>)
        ensures
            text_result(r) == enc_sub_schema(*schema),
        decreases schema, 0int,
    {
        match schema {
            Schema::RefSchema { name } => TSProtobufEncoder::get_encoder(name),
            Schema::ObjectSchema { name, fields, unknown } => {
                match name {
                    Some(n) => TSProtobufEncoder::get_encoder(n),
                    None => TSProtobufEncoder::format_object_fields(fields, unknown),
                }
            },
            Schema::ArraySchema { item } => TSProtobufEncoder::format_sub_array(item),
            Schema::OneOf { .. } => Err("Schema::OneOf not implemented"),
            _ => Ok(String::new()),
        }
    }

    /// A top-level array gets no encoder: always the error.
    fn format_root_array(item: &Box<Schema>) -> (r: Result<String, &'static str>)
        ensures
            text_result(r) == Err::<Seq<char>, Seq<char>>("root Schema::ArraySchema not implemented"@),
    {
        Err("root Schema::ArraySchema not implemented")
    }

    fn format_sub_array(item: &Box<Schema>) -> (r: Result<String, &'static str>)
        ensures
            text_result(r) == enc_sub_array(**item),
        decreases **item, 0int,
    {
        match &**item {
            Schema::RefSchema { name } => TSProtobufEncoder::get_encoder(name),
            Schema::ObjectSchema { name, fields, unknown } => {
                match name {
                    Some(n) => TSProtobufEncoder::get_encoder(n),
                    None => TSProtobufEncoder::format_object_fields(fields, unknown),
                }
            },
            Schema::ArraySchema { item } => {
                match TSProtobufEncoder::format_sub_array(item) {
                    Ok(converted) => {
                        let mut output = String::from_str("encodeArray(");
                        output.append(converted.as_str());
                        output.append(")");
                        Ok(output)
                    },
                    Err(e) => Err(e),
                }
            },
            Schema::OneOf { .. } => Err("Schema::OneOf not implemented"),
            _ => Ok(String::from_str("encodeArray(identity)")),
        }
    }

    /// The name of the encoder function for the schema named `name`. Never fails.
    pub fn get_encoder(name: &String) -> (r: Result<String, &'static str>)
        ensures
            r matches Ok(s) && s@ == encoder_name(name@),
    {
        match Helpers::format_interface_name(name) {
            Ok(interface_name) => {
                let mut output = String::from_str("encode");
                output.append(interface_name.as_str());
                Ok(output)
            },
            Err(e) => Err(e),
        }
    }

    fn format_object(name: &String, fields: &Vec<(String, FieldRestriction)>, unknown: &bool) -> (r:
        Result<String, &'static str>)
        ensures
            text_result(r) == enc_object(name@, fields@, *unknown),
    {
        match Helpers::format_interface_name(name) {
            Ok(interface_name) => {
                match TSProtobufEncoder::format_object_fields(fields, unknown) {
                    Ok(converted) => {
                        let mut output = String::from_str("export function encode");
                        output.append(interface_name.as_str());
                        output.append("(arg: ");
                        output.append(interface_name.as_str());
                        if *unknown {
                            output.append("): {value: string} ");
                        } else {
                            output.append("): {[x: string]: any} ");
                        }
                        output.append(converted.as_str());
                        output.append("\n\n");
                        Ok(output)
                    },
                    Err(e) => Err(e),
                }
            },
            Err(e) => Err(e),
        }
    }

    fn format_object_fields(fields: &Vec<(String, FieldRestriction)>, unknown: &bool) -> (r: Result<
        String,
        &'static str,
    >)
        ensures
            text_result(r) == enc_object_fields(fields@, *unknown),
        decreases fields, 2int,
    {
        if *unknown {
            return Ok(String::from_str("{\n\treturn {value: JSON.stringify(arg)}\n}"));
        }
        let ghost all = fields@;
        let mut output: Vec<String> = Vec::new();
        let mut i: usize = 0;
        assert(all.subrange(0, all.len() as int) =~= all);
        assert(output@.map_values(|v: String| v@) + Seq::<Seq<char>>::empty() =~= output@.map_values(
            |v: String| v@,
        ));
        while i < fields.len()
            invariant
                i <= all.len(),
                all == fields@,
                !*unknown,
                enc_field_list(all) == after_list(
                    output@.map_values(|v: String| v@),
                    enc_field_list(all.subrange(i as int, all.len() as int)),
                ),
            decreases all.len() - i,
        {
            let ghost rest = all.subrange(i as int, all.len() as int);
            assert(rest[0] == all[i as int]);
            assert(rest.subrange(1, rest.len() as int) =~= all.subrange(i + 1, all.len() as int));
            proof {
                assert(decreases_to!(fields => fields[i as int]));
            }
            let (key, field) = &fields[i];
            match TSProtobufEncoder::format_sub_schema(&field.base) {
                Ok(converted) => {
                    let ghost before = output@.map_values(|v: String| v@);
                    let entry = TSProtobufEncoder::format_entry(key, field.required, &converted);
                    output.push(entry);
                    proof {
                        assert(output@.map_values(|v: String| v@) =~= before + seq![entry@]);
                        match enc_field_list(all.subrange(i + 1, all.len() as int)) {
                            Ok(t) => {
                                assert(before + (seq![entry@] + t) =~= (before + seq![entry@])
                                    + t);
                            },
                            Err(_) => {},
                        }
                    }
                },
                Err(e) => {
                    return Err(e);
                },
            }
            i = i + 1;
        }
        assert(all.subrange(i as int, all.len() as int) =~= Seq::<(String, FieldRestriction)>::empty());
        assert(output@.map_values(|v: String| v@) + Seq::<Seq<char>>::empty() =~= output@.map_values(
            |v: String| v@,
        ));
        let joined = join_strings(&output, ",\n\t");
        let mut result = String::from_str("{\n\treturn {\n\t");
        result.append(joined.as_str());
        result.append("\n}\n}");
        Ok(result)
    }

    /// The encoded entry of the field `key`, given its encoder `converted`.
    fn format_entry(key: &String, required: bool, converted: &String) -> (entry: String)
        ensures
            entry@ == enc_entry(key@, required, converted@),
    {
        let mut entry = key.clone();
        if required {
            if converted.as_str().is_empty() {
                entry.append(": arg.");
                entry.append(key.as_str());
            } else {
                entry.append(": ");
                entry.append(converted.as_str());
                entry.append("(arg.");
                entry.append(key.as_str());
                entry.append(")");
            }
        } else {
            entry.append(": arg.");
            entry.append(key.as_str());
            entry.append("?");
            entry.append(converted.as_str());
            entry.append("(arg.");
            entry.append(key.as_str());
            entry.append("): null");
        }
        entry
    }
}

} // verus!
