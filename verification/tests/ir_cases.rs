use typed_api::exporter::encoder::TSProtobufEncoder;
use typed_api::exporter::interfaces::TypescriptInterface;
use typed_api::exporter::protobuf::Protobuf;
use typed_api::ir::{FieldRestriction, IntermediateRepresentation, Schema};

fn string() -> Schema {
    Schema::StringSchema { max: None, min: None, regex: None, valid_values: None }
}

fn integer() -> Schema {
    Schema::IntSchema { max: None, min: None, valid_values: None }
}

fn field(name: &str, required: bool, base: Schema) -> (String, FieldRestriction) {
    (name.to_string(), FieldRestriction { base, required })
}

fn object(name: Option<&str>, fields: Vec<(String, FieldRestriction)>, unknown: bool) -> Schema {
    Schema::ObjectSchema { name: name.map(|n| n.to_string()), fields, unknown }
}

fn single(schema: Schema) -> IntermediateRepresentation<'static> {
    let mut ir = IntermediateRepresentation::init();
    ir.add_schema(schema);
    ir
}

#[test]
fn interfaces_reference_and_nested_object() {
    let ir = single(Schema::RefSchema { name: "Other".to_string() });
    assert_eq!(TypescriptInterface::export(&ir), Ok("IOther".to_string()));
    let inner = object(None, vec![field("a", true, Schema::BooleanSchema {})], false);
    let ir = single(object(Some("Outer"), vec![field("inner", false, inner)], false));
    assert_eq!(
        TypescriptInterface::export(&ir),
        Ok("\n\nexport interface IOuter {\n\tinner: {\n\ta: boolean\n}\n}".to_string())
    );
}

#[test]
fn interfaces_export_appends_each_added_schema() {
    let mut ir = IntermediateRepresentation::init();
    ir.add_schema(string());
    let before = TypescriptInterface::export(&ir).unwrap();
    ir.add_schema(Schema::ArraySchema { item: Box::new(integer()) });
    let after = TypescriptInterface::export(&ir).unwrap();
    assert_eq!(after, before + " number[]");
}

#[test]
fn protobuf_root_errors() {
    assert_eq!(Protobuf::export(&single(object(None, vec![], false))), Err("Protobuf can't handle ObjectSchema without name"));
    assert_eq!(Protobuf::export(&single(Schema::ArraySchema { item: Box::new(string()) })), Err("Root Array must never occur"));
    assert_eq!(Protobuf::export(&single(Schema::OneOf { values: vec![string()] })), Err("Root oneOf must never occur"));
}

#[test]
fn protobuf_field_errors() {
    let nested_array = Schema::ArraySchema { item: Box::new(Schema::ArraySchema { item: Box::new(string()) }) };
    let ir = single(object(Some("M"), vec![field("a", true, nested_array)], false));
    assert_eq!(Protobuf::export(&ir), Err("format Schema::ArraySchema of Schema::ArraySchema is not implemented"));
    let ir = single(object(Some("M"), vec![field("a", true, object(None, vec![], true))], false));
    assert_eq!(Protobuf::export(&ir), Err("format Schema::OneOf is not implemented"));
}

#[test]
fn protobuf_first_error_stops_export() {
    let mut ir = IntermediateRepresentation::init();
    ir.add_schema(string());
    ir.add_schema(Schema::OneOf { values: vec![] });
    ir.add_schema(object(None, vec![], false));
    assert_eq!(Protobuf::export(&ir), Err("Root oneOf must never occur"));
}

#[test]
fn protobuf_nested_unnamed_message_and_reference() {
    let inner = object(None, vec![field("x", true, integer())], false);
    let ir = single(object(
        Some("Outer"),
        vec![field("first", true, Schema::RefSchema { name: "Ref".to_string() }), field("second", true, inner)],
        false,
    ));
    assert_eq!(
        Protobuf::export(&ir),
        Ok("message Outer {\n\tfirst = 1;\n\tmessage Unnamed2 {\n\tx = 1;\n}\n\n\tsecond = 2;\n}\n".to_string())
    );
}

#[test]
fn protobuf_one_of_keeps_the_field_count() {
    let ir = single(object(
        Some("M"),
        vec![field("a", true, integer()), field("b", true, Schema::OneOf { values: vec![string(), integer()] }), field("c", true, string())],
        false,
    ));
    assert_eq!(
        Protobuf::export(&ir),
        Ok("message M {\n\ta = 1;oneof b {\n\t\tstring oneOf2 = 2;\n\t\tint64 oneOf3 = 3;\n\t}\n\tc = 2;\n}\n".to_string())
    );
}

#[test]
fn protobuf_numbers_past_nine() {
    let fields: Vec<(String, FieldRestriction)> = (1..=11).map(|i| field(&format!("f{}", i), true, integer())).collect();
    let ir = single(object(Some("Wide"), fields, false));
    let text = Protobuf::export(&ir).unwrap();
    assert!(text.ends_with("\n\tf10 = 10;\n\tf11 = 11;\n}\n"));
}

#[test]
fn protobuf_export_appends_each_added_schema() {
    let mut ir = IntermediateRepresentation::init();
    ir.add_schema(Schema::FloatSchema { max: Some(2.5f64.to_bits()), min: Some(0.5f64.to_bits()) });
    assert_eq!(Protobuf::export(&ir), Ok("double".to_string()));
    ir.add_schema(Schema::BooleanSchema {});
    assert_eq!(Protobuf::export(&ir), Ok("doublebool".to_string()));
}

#[test]
fn encoder_root_errors() {
    let cases: Vec<(Schema, &str)> = vec![
        (Schema::RefSchema { name: "R".to_string() }, "Schema::RefSchema not implemented"),
        (object(None, vec![], false), "can't name a function to encode an unnamed object"),
        (string(), "Schema::StringSchema not implemented"),
        (integer(), "Schema::IntSchema not implemented"),
        (Schema::FloatSchema { max: None, min: None }, "Schema::FloatSchema not implemented"),
        (Schema::BooleanSchema {}, "Schema::BooleanSchema not implemented"),
        (Schema::ArraySchema { item: Box::new(string()) }, "root Schema::ArraySchema not implemented"),
        (Schema::OneOf { values: vec![] }, "Schema::OneOf not implemented"),
    ];
    for (schema, message) in cases {
        assert_eq!(TSProtobufEncoder::export(&single(schema)), Err(message));
    }
}

#[test]
fn encoder_fields() {
    let nested = Schema::ArraySchema { item: Box::new(Schema::ArraySchema { item: Box::new(integer()) }) };
    let ir = single(object(
        Some("E"),
        vec![
            field("r", true, Schema::RefSchema { name: "Ref".to_string() }),
            field("o", false, string()),
            field("n", true, nested),
        ],
        false,
    ));
    let text = TSProtobufEncoder::export(&ir).unwrap();
    assert!(text.ends_with(
        "export function encodeIE(arg: IE): {[x: string]: any} {\n\treturn {\n\tr: encodeIRef(arg.r),\n\to: arg.o?(arg.o): null,\n\tn: encodeArray(encodeArray(identity))(arg.n)\n}\n}\n\n"
    ));
    let one_of = single(object(Some("E"), vec![field("x", true, Schema::OneOf { values: vec![] })], false));
    assert_eq!(TSProtobufEncoder::export(&one_of), Err("Schema::OneOf not implemented"));
}

#[test]
fn encoder_export_appends_each_added_schema() {
    let mut ir = IntermediateRepresentation::init();
    ir.add_schema(object(Some("A"), vec![], true));
    let before = TSProtobufEncoder::export(&ir).unwrap();
    ir.add_schema(object(Some("B"), vec![], true));
    let after = TSProtobufEncoder::export(&ir).unwrap();
    assert_eq!(
        after,
        before + "export function encodeIB(arg: IB): {value: string} {\n\treturn {value: JSON.stringify(arg)}\n}\n\n"
    );
}
