use typed_api::exporter::protobuf::Protobuf;
use typed_api::ir::{FieldRestriction, IntermediateRepresentation, Schema};

#[test]
fn protobuf_export_empty_schema() {
    let expected = "".to_owned();
    let ir = IntermediateRepresentation::init();
    assert_eq!(Protobuf::export(&ir), Ok(expected));
}

#[test]
fn protobuf_export_object_schema_with_primitive() {
    let expected = "message Interface {\n\tinteger = 1;\n\tinteger2 = 2;\n\tcomment = 3;\n}\n".to_owned();
    let mut ir = IntermediateRepresentation::init();
    let mut fields: Vec<(String, FieldRestriction)> = Vec::new();
    fields.push(("integer".to_string(), FieldRestriction { required: true, base: Schema::IntSchema { max: None, min: None, valid_values: None } }));
    fields.push(("integer2".to_string(), FieldRestriction { required: true, base: Schema::IntSchema { max: None, min: None, valid_values: None } }));
    fields.push(("comment".to_string(), FieldRestriction { required: true, base: Schema::StringSchema { max: None, min: None, regex: None, valid_values: None } }));
    ir.add_schema(Schema::ObjectSchema { name: Some("Interface".to_string()), fields, unknown: false });
    assert_eq!(Protobuf::export(&ir), Ok(expected));
}

#[test]
fn protobuf_export_string_regex_primitive() {
    let expected = "string".to_owned();
    let mut ir = IntermediateRepresentation::init();
    let schema = Schema::StringSchema { max: None, min: None, regex: None, valid_values: None };
    ir.add_schema(schema);
    assert_eq!(Protobuf::export(&ir), Ok(expected));
}

#[test]
fn protobuf_export_int_primitive() {
    let expected = "int64".to_owned();
    let mut ir = IntermediateRepresentation::init();
    let schema = Schema::IntSchema { max: None, min: None, valid_values: None };
    ir.add_schema(schema);
    assert_eq!(Protobuf::export(&ir), Ok(expected));
}

#[test]
fn protobuf_export_float_primitive() {
    let expected = "double".to_owned();
    let mut ir = IntermediateRepresentation::init();
    let schema = Schema::FloatSchema { max: None, min: None };
    ir.add_schema(schema);
    assert_eq!(Protobuf::export(&ir), Ok(expected));
}

#[test]
fn protobuf_export_boolean_primitive() {
    let expected = "bool".to_owned();
    let mut ir = IntermediateRepresentation::init();
    let schema = Schema::BooleanSchema {};
    ir.add_schema(schema);
    assert_eq!(Protobuf::export(&ir), Ok(expected));
}

#[test]
fn protobuf_export_array_primitive() {
    let expected = Ok("message Interface {\n\trepeated string comment = 1;\n}\n".to_owned());
    let mut ir = IntermediateRepresentation::init();
    let schema = Schema::StringSchema { max: None, min: None, regex: None, valid_values: None };
    let array_schema = Schema::ArraySchema { item: Box::new(schema) };
    let mut fields: Vec<(String, FieldRestriction)> = Vec::new();
    fields.push(("comment".to_string(), FieldRestriction { required: true, base: array_schema }));
    ir.add_schema(Schema::ObjectSchema { name: Some("Interface".to_string()), fields, unknown: false });
    assert_eq!(Protobuf::export(&ir), expected);
}

#[test]
fn export_one_of_array() {
    let expected = Ok("message Interface {\n\tmessage Array1 {repeated string values = 1;}\n\toneof comment {\n\t\tstring oneOf1 = 1;\n\t\tint64 oneOf2 = 2;\n\t\tArray1 oneOf3 = 3;\n\t}\n}\n".to_owned());
    let mut ir = IntermediateRepresentation::init();
    let schema_string = Schema::StringSchema { max: None, min: None, regex: None, valid_values: None };
    let schema_int = Schema::IntSchema { max: None, min: None, valid_values: None };
    let schema_array = Schema::ArraySchema { item: Box::new(Schema::StringSchema { max: None, min: None, regex: None, valid_values: None }) };
    let mut fields: Vec<(String, FieldRestriction)> = Vec::new();
    fields.push(("comment".to_string(), FieldRestriction { required: true, base: Schema::OneOf { values: vec!(schema_string, schema_int, schema_array) } }));
    ir.add_schema(Schema::ObjectSchema { name: Some("Interface".to_string()), fields, unknown: false });
    assert_eq!(Protobuf::export(&ir), expected);
}

#[test]
fn export_array_one_of() {
    let expected = Ok("message Interface {\n\tmessage oneOfcomment {\n\t\tstring oneOf1 = 1;\n\t\tint64 oneOf2 = 2;\n\t}\n\t}\n\t\trepeated oneOfcomment = 1;\n}\n".to_owned());
    let mut ir = IntermediateRepresentation::init();
    let schema_string = Schema::StringSchema { max: None, min: None, regex: None, valid_values: None };
    let schema_int = Schema::IntSchema { max: None, min: None, valid_values: None };
    let schema_one_of = Schema::OneOf { values: vec!(schema_string, schema_int) };
    let schema_array = Schema::ArraySchema { item: Box::new(schema_one_of) };
    let mut fields: Vec<(String, FieldRestriction)> = Vec::new();
    fields.push(("comment".to_string(), FieldRestriction { required: true, base: schema_array }));
    ir.add_schema(Schema::ObjectSchema { name: Some("Interface".to_string()), fields, unknown: false });
    assert_eq!(Protobuf::export(&ir), expected);
}

#[test]
fn protobuf_export_object_with_unknown() {
    let expected = Ok("message Interface {\n\tvalue: string\n}\n".to_owned());
    let mut ir = IntermediateRepresentation::init();
    let fields: Vec<(String, FieldRestriction)> = Vec::new();
    ir.add_schema(Schema::ObjectSchema { name: Some("Interface".to_string()), fields, unknown: true });
    assert_eq!(Protobuf::export(&ir), expected);
}
