use typed_api::exporter::clients::http::TSHTTPClient;
use typed_api::exporter::typescript::{TSHTTPServer, TSTypes, TypescriptHTTP};
use typed_api::openapi::{
    ArrayType, Components, MediaType, ObjectType, OpenAPI, Operation, Parameter, ParameterData,
    ParameterSchemaOrContent, PathItem, ReferenceOr, RequestBody, Response, Responses, Schema,
    SchemaKind, Type,
};

fn empty_document() -> OpenAPI {
    OpenAPI { paths: Vec::new(), components: None }
}

fn typed(t: Type) -> Schema {
    Schema { schema_kind: SchemaKind::Type(t) }
}

fn json(schema: ReferenceOr<Schema>) -> Vec<(String, MediaType)> {
    vec![("application/json".to_string(), MediaType { schema: Some(schema) })]
}

fn reference(r: &str) -> ReferenceOr<Schema> {
    ReferenceOr::Reference { reference: r.to_string() }
}

/// The document with one `/roots` path: `listRoots` (get) and `createRoot` (post).
fn simple_document() -> OpenAPI {
    let root = typed(Type::Object(ObjectType {
        properties: vec![
            ("name".to_string(), ReferenceOr::Item(Box::new(typed(Type::String)))),
            ("rarity".to_string(), ReferenceOr::Item(Box::new(typed(Type::Integer)))),
        ],
        required: vec!["name".to_string()],
    }));
    let list_roots = Operation {
        operation_id: Some("listRoots".to_string()),
        parameters: vec![ReferenceOr::Item(Parameter::Query {
            parameter_data: ParameterData {
                name: "fields".to_string(),
                format: ParameterSchemaOrContent::Schema(ReferenceOr::Item(typed(Type::Array(
                    ArrayType { items: ReferenceOr::Item(Box::new(typed(Type::String))) },
                )))),
            },
        })],
        request_body: None,
        responses: Responses {
            responses: vec![ReferenceOr::Item(Response {
                content: json(ReferenceOr::Item(typed(Type::Object(ObjectType {
                    properties: vec![
                        ("count".to_string(), ReferenceOr::Item(Box::new(typed(Type::Number)))),
                        (
                            "data".to_string(),
                            ReferenceOr::Item(Box::new(typed(Type::Array(ArrayType {
                                items: ReferenceOr::Reference {
                                    reference: "#/components/schemas/Root".to_string(),
                                },
                            })))),
                        ),
                    ],
                    required: vec!["count".to_string(), "data".to_string()],
                })))),
            })],
        },
    };
    let create_root = Operation {
        operation_id: Some("createRoot".to_string()),
        parameters: Vec::new(),
        request_body: Some(ReferenceOr::Item(RequestBody {
            content: json(reference("#/components/schemas/Root")),
        })),
        responses: Responses {
            responses: vec![ReferenceOr::Item(Response {
                content: json(reference("#/components/schemas/Root")),
            })],
        },
    };
    OpenAPI {
        paths: vec![(
            "/roots".to_string(),
            ReferenceOr::Item(PathItem {
                get: Some(list_roots),
                put: None,
                post: Some(create_root),
                delete: None,
            }),
        )],
        components: Some(Components { schemas: vec![("Root".to_string(), ReferenceOr::Item(root))] }),
    }
}

#[test]
fn http_export_empty_schema() {
    let expected = "import * as express from 'express'\
            \nimport { Router } from 'express'\
            \n\nimport { Request, RequestMetadata, UseCase } from './types'\
            \n\nexport function buildRouter() {\
            \n\treturn router\
            \n}";
    let ir = empty_document();
    assert_eq!(TSHTTPClient::export(&ir), Ok(expected.to_owned()));
}

#[test]
fn http_export_y_schema() {
    let expected = "import * as express from 'express'\
            \nimport { Router } from 'express'\
            \n\nimport { Request, RequestMetadata, UseCase } from './types'\
            \n\nexport interface Root {\
            \n\tname: string,\
            \n\trarity?: number\
            \n}\
            \n\nexport interface listRootsQuery {\
            \n\tfields: string[]\
            \n}\
            \n\nexport type listRootsReturn = {\
            \n\tcount: number,\
            \n\tdata: Root[]\
            \n}\
            \n\nexport function buildRouter(listRoots: UseCase<listRootsQuery, listRootsReturn>, router: Router = express.Router()) {\
            \n\trouter.get('/roots', (req: Request<listRootsQuery, {}>, res, next) => {\
            \n\t\tlistRoots\
            \n\t\t\t.execute(req.session, req.headers as RequestMetadata, req.query)\
            \n\t\t\t.then(result => res.json(result), error => res.send())\
            \n\t})\
            \n\treturn router\
            \n}";
    let ir = simple_document();
    assert_eq!(TSHTTPClient::export(&ir), Ok(expected.to_owned()));
}

#[test]
fn http_server_export_empty_schema() {
    let expected = "import * as express from 'express'\
            \nimport { Router } from 'express'\
            \n\nimport { Request, RequestMetadata, UseCase } from './genericsTypes'\
            \n\nimport {\
            \n} from './types'\
            \n\nexport function buildRouter(\
            \n\t\t\trouter: Router = express.Router()\
            \n\t\t) {\
            \n\treturn router\
            \n}";
    let ir = empty_document();
    assert_eq!(TSHTTPServer::export(&ir), Ok(expected.to_owned()));
}

#[test]
fn http_server_export_y_schema() {
    let expected = "import * as express from 'express'\
            \nimport { Router } from 'express'\
            \n\nimport { Request, RequestMetadata, UseCase } from './genericsTypes'\
            \n\nimport {\
            \n\tlistRootsQuery,\
            \n\tlistRootsReturn,\
            \n\tcreateRootQuery,\
            \n\tcreateRootReturn,\
            \n} from './types'\
            \n\nexport function buildRouter(\
            \n\t\t\tlistRoots: UseCase<listRootsQuery, listRootsReturn>,\
            \n\t\t\tcreateRoot: UseCase<createRootQuery, createRootReturn>,\
            \n\t\t\trouter: Router = express.Router()\
            \n\t\t) {\
            \n\trouter.get('/roots', (req: Request<listRootsQuery>, res, next) => {\
            \n\t\tlistRoots\
            \n\t\t\t.execute(req.session, req.headers as RequestMetadata, req.query)\
            \n\t\t\t.then(result => res.json(result), error => res.send())\
            \n\t})\
            \n\trouter.post('/roots', (req: Request<createRootQuery>, res, next) => {\
            \n\t\tcreateRoot\
            \n\t\t\t.execute(req.session, req.headers as RequestMetadata, req.body)\
            \n\t\t\t.then(result => res.json(result), error => res.send())\
            \n\t})\
            \n\treturn router\
            \n}";
    let ir = simple_document();
    assert_eq!(TSHTTPServer::export(&ir), Ok(expected.to_owned()));
}

#[test]
fn types_export_empty_schema() {
    let expected = "";
    let ir = empty_document();
    assert_eq!(TSTypes::export(&ir), Ok(expected.to_owned()));
}

#[test]
fn export_simple_schema() {
    let expected = "export interface Root {\
            \n\tname: string,\
            \n\trarity?: number\
            \n}\
            \n\nexport type listRootsQuery = {\
            \n\tfields: string[]\
            \n}\
            \n\nexport type listRootsReturn = {\
            \n\tcount: number,\
            \n\tdata: Root[]\
            \n}\
            \n\nexport type createRootQuery = Root\
            \n\nexport type createRootReturn = Root\
            \n\n";
    let ir = simple_document();
    assert_eq!(TSTypes::export(&ir), Ok(expected.to_owned()));
}

#[test]
fn typescript_http_delegates() {
    let ir = simple_document();
    assert_eq!(TypescriptHTTP::export_types(&ir), TSTypes::export(&ir));
    assert_eq!(TypescriptHTTP::export_server(&ir), TSHTTPServer::export(&ir));
}

fn unnamed_get(parameters: Vec<ReferenceOr<Parameter>>) -> PathItem {
    PathItem {
        get: Some(Operation {
            operation_id: None,
            parameters,
            request_body: None,
            responses: Responses { responses: Vec::new() },
        }),
        put: None,
        post: None,
        delete: None,
    }
}

#[test]
fn client_numbers_unnamed_operations() {
    let ir = OpenAPI {
        paths: vec![
            ("/a".to_string(), ReferenceOr::Item(unnamed_get(Vec::new()))),
            ("/r".to_string(), ReferenceOr::Reference { reference: "#/paths/r".to_string() }),
            ("/b".to_string(), ReferenceOr::Item(unnamed_get(Vec::new()))),
        ],
        components: None,
    };
    let text = TSHTTPClient::export(&ir).unwrap();
    assert!(text.contains("export interface create1Query {\n\t\n}\n\nexport type create1Return = "));
    assert!(text.contains("export interface create2Query {\n\t\n}\n\nexport type create2Return = "));
    assert!(text.contains("router.get('/b', (req: Request<listRootsQuery, {}>, res, next) => {\n\t\tcreate2"));
}

#[test]
fn server_names_unnamed_operations_by_verb() {
    let op = || Operation {
        operation_id: None,
        parameters: Vec::new(),
        request_body: None,
        responses: Responses { responses: Vec::new() },
    };
    let ir = OpenAPI {
        paths: vec![(
            "/x".to_string(),
            ReferenceOr::Item(PathItem { get: Some(op()), put: Some(op()), post: Some(op()), delete: Some(op()) }),
        )],
        components: None,
    };
    let text = TSHTTPServer::export(&ir).unwrap();
    assert!(text.contains("import {\n\tdelete1Query,\n\tdelete1Return,\n\tget1Query,\n\tget1Return,\n\tpost1Query,\n\tpost1Return,\n\tput1Query,\n\tput1Return,\n} from './types'"));
    assert!(text.contains("{\n\t\tput1put1\n\t\t\t.execute"));
}

#[test]
fn types_of_referenced_and_non_query_parameters() {
    let header = Parameter::Header {
        parameter_data: ParameterData {
            name: "h".to_string(),
            format: ParameterSchemaOrContent::Schema(ReferenceOr::Item(typed(Type::String))),
        },
    };
    let query = |name: &str, t: Type| {
        ReferenceOr::Item(Parameter::Query {
            parameter_data: ParameterData {
                name: name.to_string(),
                format: ParameterSchemaOrContent::Schema(ReferenceOr::Item(typed(t))),
            },
        })
    };
    let operation = Operation {
        operation_id: Some("op".to_string()),
        parameters: vec![
            ReferenceOr::Reference { reference: "#/components/parameters/P".to_string() },
            ReferenceOr::Item(header),
            query("a", Type::Boolean),
            query("b", Type::Number),
        ],
        request_body: Some(ReferenceOr::Reference { reference: "#/components/requestBodies/B".to_string() }),
        responses: Responses {
            responses: vec![
                ReferenceOr::Item(Response {
                    content: vec![
                        ("text/plain".to_string(), MediaType { schema: Some(ReferenceOr::Item(typed(Type::String))) }),
                        ("application/json".to_string(), MediaType { schema: Some(ReferenceOr::Item(Schema { schema_kind: SchemaKind::Any })) }),
                    ],
                }),
                ReferenceOr::Reference { reference: "#/components/responses/R".to_string() },
            ],
        },
    };
    let ir = OpenAPI {
        paths: vec![(
            "/p".to_string(),
            ReferenceOr::Item(PathItem { get: None, put: None, post: Some(operation), delete: None }),
        )],
        components: Some(Components { schemas: Vec::new() }),
    };
    assert_eq!(
        TSTypes::export(&ir),
        Ok("\n\nexport type opQuery = #/components/parameters/P | #/components/requestBodies/B | {\n\ta: booleanb: number\n}\n\nexport type opReturn = any\n\n".to_string())
    );
}
