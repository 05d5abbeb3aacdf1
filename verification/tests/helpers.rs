use typed_api::exporter::clients::grpc::TypescriptGRPCClient;
use typed_api::exporter::clients::http::TSHTTPClient;
use typed_api::exporter::encoder::TSProtobufEncoder;
use typed_api::exporter::helpers::Helpers;
use typed_api::exporter::typescript::http_server::{TSExport, HTTP_VERB};
use typed_api::exporter::typescript::TSHTTPServer;
use typed_api::exporter::{ExportOption, Exporter, PartialExportOption};
use typed_api::ir::IntermediateRepresentation;

#[test]
fn interface_name_has_prefix() {
    assert_eq!(Helpers::format_interface_name(&"Foo".to_string()), Ok("IFoo".to_string()));
    assert_eq!(Helpers::format_interface_name(&"".to_string()), Ok("I".to_string()));
}

#[test]
fn variable_and_message_names_are_kept() {
    assert_eq!(Helpers::format_variable_name(&"some_name".to_string()), Ok("some_name".to_string()));
    assert_eq!(Helpers::format_message_name(&"Message".to_string()), Ok("Message".to_string()));
}

#[test]
fn encoder_name() {
    assert_eq!(TSProtobufEncoder::get_encoder(&"User".to_string()), Ok("encodeIUser".to_string()));
}

#[test]
fn grpc_client_placeholder() {
    let ir = IntermediateRepresentation::init();
    assert_eq!(TypescriptGRPCClient::export(&ir), Ok("//todo: Import".to_string()));
}

#[test]
fn reference_names() {
    let name = |s: &str| TSHTTPClient::get_type_from_reference(&s.to_string());
    assert_eq!(name("#/components/schemas/Root"), "Root");
    assert_eq!(name("Root"), "Root");
    assert_eq!(name("a/b/"), "");
    assert_eq!(name(""), "");
    assert_eq!(name("/x"), "x");
}

#[test]
fn router_part_for_each_verb() {
    let key = "/items".to_string();
    let id = "op".to_string();
    let mut acc = TSExport::new(String::new(), String::new(), String::new());
    TSHTTPServer::write_build_router_part(&mut acc, &HTTP_VERB::PUT, &&key, &id);
    assert_eq!(acc.imports, "\n\topQuery,\n\topReturn,");
    assert_eq!(acc.parameters, "\n\t\t\top: UseCase<opQuery, opReturn>,");
    assert_eq!(
        acc.content,
        "\n\trouter.put('/items', (req: Request<opQuery>, res, next) => {\n\t\topop\n\t\t\t.execute(req.session, req.headers as RequestMetadata, req.body)\n\t\t\t.then(result => res.json(result), error => res.send())\n\t})"
    );
    let mut acc = TSExport::new(String::new(), String::new(), String::new());
    TSHTTPServer::write_build_router_part(&mut acc, &HTTP_VERB::DELETE, &&key, &id);
    assert_eq!(
        acc.content,
        "\n\trouter.delete('/items', (req: Request<opQuery>, res, next) => {\n\t\top\n\t\t\t.execute(req.session, req.headers as RequestMetadata, req.query)\n\t\t\t.then(result => res.json(result), error => res.send())\n\t})"
    );
}

#[test]
fn export_options_round_trip() {
    let option = ExportOption::new("out/types.ts".to_string());
    let partial = option.as_partial();
    let full = partial.as_full();
    let again = full.as_partial();
    Exporter::export(again);
    let direct = PartialExportOption::new("out/types.ts".to_string());
    Exporter::export(direct);
}
