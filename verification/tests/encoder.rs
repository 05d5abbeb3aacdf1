use typed_api::exporter::encoder::TSProtobufEncoder;
use typed_api::ir::{FieldRestriction, IntermediateRepresentation, Schema};

fn merge_all_times_generated(expected: &str) -> String {
    let mut res = "\
        export function encodeArray<T, U>( encodeFct(T)=> V): (args: T[]) =>  U[] {return (args) => args.map(encodeFct)}\n\n\
        export function identity<T>( arg: T): T {return arg}\n\n\
        ".to_string();
    res.push_str(expected);
    res
}

#[test]
fn encoder_export_empty_schema() {
    let expected = merge_all_times_generated("");
    let ir = IntermediateRepresentation::init();
    assert_eq!(TSProtobufEncoder::export(&ir), Ok(expected));
}

#[test]
fn encoder_export_object_schema_with_primitive() {
    let expected = merge_all_times_generated("\
        export function encodeIInterface(arg: IInterface): {[x: string]: any} {\n\treturn {\n\t\
        integer: arg.integer,\n\t\
        integer2: arg.integer2,\n\t\
        comment: arg.comment\n}\n}\n\n");
    let mut ir = IntermediateRepresentation::init();
    let mut fields: Vec<(String, FieldRestriction)> = Vec::new();
    fields.push(("integer".to_string(), FieldRestriction { required: true, base: Schema::IntSchema { max: None, min: None, valid_values: None } }));
    fields.push(("integer2".to_string(), FieldRestriction { required: true, base: Schema::IntSchema { max: None, min: None, valid_values: None } }));
    fields.push(("comment".to_string(), FieldRestriction { required: true, base: Schema::StringSchema { max: None, min: None, regex: None, valid_values: None } }));
    ir.add_schema(Schema::ObjectSchema { name: Some("Interface".to_string()), fields, unknown: false });
    assert_eq!(TSProtobufEncoder::export(&ir), Ok(expected));
}

#[test]
fn encoder_export_array_primitive() {
    let expected = merge_all_times_generated("\
        export function encodeIInterface(arg: IInterface): {[x: string]: any} {\n\treturn {\n\t\
        arr: encodeArray(identity)(arg.arr)\n\
        }\n}\n\n");
    let mut ir = IntermediateRepresentation::init();
    let schema = Schema::StringSchema { max: None, min: None, regex: None, valid_values: None };
    let mut fields: Vec<(String, FieldRestriction)> = Vec::new();
    fields.push(("arr".to_string(), FieldRestriction { required: true, base: Schema::ArraySchema { item: Box::new(schema) } }));
    ir.add_schema(Schema::ObjectSchema { name: Some("Interface".to_string()), fields, unknown: false });
    assert_eq!(TSProtobufEncoder::export(&ir), Ok(expected));
}

#[test]
fn encoder_export_object_with_unknown() {
    let expected = merge_all_times_generated(&"export function encodeIInterface(arg: IInterface): {value: string} {\n\treturn {value: JSON.stringify(arg)}\n}\n\n");
    let mut ir = IntermediateRepresentation::init();
    let fields: Vec<(String, FieldRestriction)> = Vec::new();
    ir.add_schema(Schema::ObjectSchema { name: Some("Interface".to_string()), fields, unknown: true });
    assert_eq!(TSProtobufEncoder::export(&ir), Ok(expected));
}
