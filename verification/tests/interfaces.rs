use typed_api::exporter::interfaces::TypescriptInterface;
use typed_api::ir::{FieldRestriction, IntermediateRepresentation, Schema};

#[test]
fn interfaces_export_empty_schema() {
    let expected = "".to_owned();
    let ir = IntermediateRepresentation::init();
    assert_eq!(TypescriptInterface::export(&ir), Ok(expected));
}

#[test]
fn interfaces_export_object_schema_with_primitive() {
    let expected = "\n\nexport interface IInterface {\n\tinteger: number\n\tinteger2: number\n\tcomment: string\n}".to_owned();
    let mut ir = IntermediateRepresentation::init();
    let mut fields: Vec<(String, FieldRestriction)> = Vec::new();
    fields.push(("integer".to_string(), FieldRestriction { required: true, base: Schema::IntSchema { max: None, min: None, valid_values: None } }));
    fields.push(("integer2".to_string(), FieldRestriction { required: true, base: Schema::IntSchema { max: None, min: None, valid_values: None } }));
    fields.push(("comment".to_string(), FieldRestriction { required: true, base: Schema::StringSchema { max: None, min: None, regex: None, valid_values: None } }));
    ir.add_schema(Schema::ObjectSchema { name: Some("Interface".to_string()), fields, unknown: true });
    assert_eq!(TypescriptInterface::export(&ir), Ok(expected));
}

#[test]
fn interfaces_export_string_regex_primitive() {
    let expected = " string".to_owned();
    let mut ir = IntermediateRepresentation::init();
    let schema = Schema::StringSchema { max: None, min: None, regex: None, valid_values: None };
    ir.add_schema(schema);
    assert_eq!(TypescriptInterface::export(&ir), Ok(expected));
}

#[test]
fn interfaces_export_int_primitive() {
    let expected = " number".to_owned();
    let mut ir = IntermediateRepresentation::init();
    let schema = Schema::IntSchema { max: None, min: None, valid_values: None };
    ir.add_schema(schema);
    assert_eq!(TypescriptInterface::export(&ir), Ok(expected));
}

#[test]
fn interfaces_export_float_primitive() {
    let expected = " number".to_owned();
    let mut ir = IntermediateRepresentation::init();
    let schema = Schema::FloatSchema { max: None, min: None };
    ir.add_schema(schema);
    assert_eq!(TypescriptInterface::export(&ir), Ok(expected));
}

#[test]
fn interfaces_export_boolean_primitive() {
    let expected = " boolean".to_owned();
    let mut ir = IntermediateRepresentation::init();
    let schema = Schema::BooleanSchema {};
    ir.add_schema(schema);
    assert_eq!(TypescriptInterface::export(&ir), Ok(expected));
}

#[test]
fn interfaces_export_array_primitive() {
    let expected = " string[]".to_owned();
    let mut ir = IntermediateRepresentation::init();
    let schema = Schema::StringSchema { max: None, min: None, regex: None, valid_values: None };
    ir.add_schema(Schema::ArraySchema { item: Box::new(schema) });
    assert_eq!(TypescriptInterface::export(&ir), Ok(expected));
}

#[test]
fn export_one_of() {
    let expected = " string | number".to_owned();
    let mut ir = IntermediateRepresentation::init();
    let schema_string = Schema::StringSchema { max: None, min: None, regex: None, valid_values: None };
    let schema_int = Schema::IntSchema { max: None, min: None, valid_values: None };
    ir.add_schema(Schema::OneOf { values: vec!(schema_string, schema_int) });
    assert_eq!(TypescriptInterface::export(&ir), Ok(expected));
}
