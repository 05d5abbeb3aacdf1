//! A TypeScript client with an express router for the get operations of an API document.
use vstd::prelude::*;
use vstd::string::StringExecFns;
use crate::exporter::typescript::types::{
    components_part, js_boxed, js_ref, js_type, parameter_items, parameters_text,
    responses_text, TSTypes,
};
use crate::openapi::{OpenAPI, Operation, Parameter, ParameterSchemaOrContent, PathItem, ReferenceOr, Schema};
use crate::text::{int_decimal, i64_to_decimal, last_segment, starts_with};

verus! {

/// The imports, types, parameters and routes of a client, as text.
pub struct TSExport {
    pub imports: String,
    pub types: String,
    pub parameters: String,
    pub content: String,
}

impl TSExport {
    /// The four parts of a client as text.
    pub open spec fn parts(self) -> (Seq<char>, Seq<char>, Seq<char>, Seq<char>) {
        (self.imports@, self.types@, self.parameters@, self.content@)
    }

    /// A client with the given imports, types, parameters and routes.
    pub fn new(imports: String, types: String, parameters: String, content: String) -> (r: TSExport)
        ensures
            r.parts() == (imports@, types@, parameters@, content@),
    {
        TSExport { imports, types, parameters, content }
    }
}

/// The name of a get operation: its id, or `create` and `counter`.
pub open spec fn client_operation_name(operation: Operation, counter: int) -> Seq<char> {
    match operation.operation_id {
        Some(id) => id@,
        None => "create"@ + int_decimal(counter),
    }
}

/// The query and return types of the get operation named `id`.
pub open spec fn client_types(operation: Operation, id: Seq<char>) -> Seq<char> {
    "export interface "@ + id + "Query {\n\t"@ + parameters_text(parameter_items(operation.parameters@))
        + "\n}\n\n"@ + "export type "@ + id + "Return = "@ + responses_text(
        operation.responses.responses@,
    )
}

/// The router parameter for the use case of the get operation named `id`.
pub open spec fn client_parameters(id: Seq<char>) -> Seq<char> {
    id + ": UseCase<"@ + id + "Query, "@ + id + "Return>, router: Router = express.Router()"@
}

/// The route that serves the get operation named `id` on `key`.
pub open spec fn client_content(key: Seq<char>, id: Seq<char>) -> Seq<char> {
    "\n\trouter.get('"@ + key + "', (req: Request<listRootsQuery, {}>, res, next) => {\n\t\t"@ + id
        + "\n\t\t\t.execute(req.session, req.headers as RequestMetadata, req.query)"@
        + "\n\t\t\t.then(result => res.json(result), error => res.send())"@ + "\n\t})"@
}

/// The types, parameters and routes for the get operations of the paths,
/// and the count of unnamed ones among them.
pub open spec fn client_parts(paths: Seq<(String, ReferenceOr<PathItem>)>) -> (
    Seq<char>,
    Seq<char>,
    Seq<char>,
    nat,
)
    decreases paths.len(),
{
    if paths.len() == 0 {
        (Seq::empty(), Seq::empty(), Seq::empty(), 0)
    } else {
        let prev = client_parts(paths.drop_last());
        match paths.last().1 {
            ReferenceOr::Item(path_data) => match path_data.get {
                Some(op) => {
                    let counter: nat = if op.operation_id is None {
                        prev.3 + 1
                    } else {
                        prev.3
                    };
                    let id = client_operation_name(op, counter as int);
                    (
                        prev.0 + client_types(op, id),
                        prev.1 + client_parameters(id),
                        prev.2 + client_content(paths.last().0@, id),
                        counter,
                    )
                },
                None => prev,
            },
            ReferenceOr::Reference { .. } => prev,
        }
    }
}

/// The number of get operations without an id among the paths given in place.
pub open spec fn unnamed_gets(paths: Seq<(String, ReferenceOr<PathItem>)>) -> nat
    decreases paths.len(),
{
    if paths.len() == 0 {
        0
    } else {
        unnamed_gets(paths.drop_last()) + match paths.last().1 {
            ReferenceOr::Item(path_data) => match path_data.get {
                Some(op) => if op.operation_id is None {
                    1nat
                } else {
                    0nat
                },
                None => 0nat,
            },
            ReferenceOr::Reference { .. } => 0nat,
        }
    }
}

/// Get operations without an id are numbered one after the other: after the
/// paths, the last number given out is their count.
pub proof fn law_unnamed_gets_numbered(paths: Seq<(String, ReferenceOr<PathItem>)>)
    ensures
        client_parts(paths).3 == unnamed_gets(paths),
    decreases paths.len(),
{
    if paths.len() > 0 {
        law_unnamed_gets_numbered(paths.drop_last());
    }
}

/// The client parts accumulate over the paths: the types, parameters and
/// routes for the paths `first` followed by `second` start with those for
/// `first`, and the numbers given to unnamed get operations only grow.
pub proof fn law_client_parts_grow(
    first: Seq<(String, ReferenceOr<PathItem>)>,
    second: Seq<(String, ReferenceOr<PathItem>)>,
)
    ensures
        starts_with(client_parts(first + second).0, client_parts(first).0),
        starts_with(client_parts(first + second).1, client_parts(first).1),
        starts_with(client_parts(first + second).2, client_parts(first).2),
        client_parts(first).3 <= client_parts(first + second).3,
    decreases second.len(),
{
    if second.len() == 0 {
        assert(first + second =~= first);
        let p = client_parts(first);
        assert(p.0.subrange(0, p.0.len() as int) =~= p.0);
        assert(p.1.subrange(0, p.1.len() as int) =~= p.1);
        assert(p.2.subrange(0, p.2.len() as int) =~= p.2);
    } else {
        let shorter = second.drop_last();
        law_client_parts_grow(first, shorter);
        assert((first + second).drop_last() =~= first + shorter);
        let prev = client_parts(first + shorter);
        let next = client_parts(first + second);
        let p = client_parts(first);
        lemma_prefix_extends(next.0, prev.0, p.0);
        lemma_prefix_extends(next.1, prev.1, p.1);
        lemma_prefix_extends(next.2, prev.2, p.2);
    }
}

/// A prefix of a prefix is a prefix.
proof fn lemma_prefix_extends(longer: Seq<char>, middle: Seq<char>, shorter: Seq<char>)
    requires
        starts_with(middle, shorter),
        middle == longer || exists|extra: Seq<char>| longer == middle + extra,
    ensures
        starts_with(longer, shorter),
{
    if middle != longer {
        let extra = choose|extra: Seq<char>| longer == middle + extra;
        assert(longer.subrange(0, shorter.len() as int) =~= middle.subrange(0, shorter.len() as int));
    }
}

/// The imports that every client file starts with.
pub open spec fn client_header() -> Seq<char> {
    "import * as express from 'express'\
                \nimport { Router } from 'express'\
                \n\nimport { Request, RequestMetadata, UseCase } from './types'"@
}

/// The client file of a document.
pub open spec fn client_export(ir: OpenAPI) -> Seq<char> {
    let parts = client_parts(ir.paths@);
    let types = components_part(ir.components) + parts.0;
    client_header() + "\n\n"@ + (if types.len() > 0 {
        types + "\n\n"@
    } else {
        Seq::empty()
    }) + "export function buildRouter("@ + parts.1 + ") {"@ + parts.2 + "\n\treturn router\n}"@
}

pub struct TSHTTPClient {}

impl TSHTTPClient {
    /// The client file of `ir`: the interfaces of its component schemas, the
    /// types of its get operations, and a router that serves them. Never fails.
    pub fn export(ir: &OpenAPI) -> (r: Result<String, String>)
        requires
            ir.paths@.len() <= isize::MAX,
        ensures
            r matches Ok(s) && s@ == client_export(*ir),
    {
        match TSHTTPClient::generate_service_client(ir) {
            Ok(export) => {
                let mut output = String::from_str(
                    "import * as express from 'express'\
                \nimport { Router } from 'express'\
                \n\nimport { Request, RequestMetadata, UseCase } from './types'",
                );
                if !export.imports.as_str().is_empty() {
                    output.append(export.imports.as_str());
                }
                output.append("\n\n");
                if !export.types.as_str().is_empty() {
                    output.append(export.types.as_str());
                    output.append("\n\n");
                }
                output.append("export function buildRouter(");
                output.append(export.parameters.as_str());
                output.append(") {");
                output.append(export.content.as_str());
                output.append("\n\treturn router\n}");
                Ok(output)
            },
            Err(e) => Err(e),
        }
    }

    fn generate_service_client(ir: &OpenAPI) -> (r: Result<TSExport, String>)
        requires
            ir.paths@.len() <= isize::MAX,
        ensures
            r matches Ok(export) && {
                let parts = client_parts(ir.paths@);
                export.parts() == (
                    Seq::<char>::empty(),
                    components_part(ir.components) + parts.0,
                    parts.1,
                    parts.2,
                )
            },
    {
        let mut counter: i64 = 0;
        let mut export = TSExport::new(String::new(), String::new(), String::new(), String::new());
        match &ir.components {
            Some(components) => {
                let mut i: usize = 0;
                let ghost schemas = components.schemas@;
                while i < components.schemas.len()
                    invariant
                        i <= schemas.len(),
                        schemas == components.schemas@,
                        export.imports@ == Seq::<char>::empty(),
                        export.parameters@ == Seq::<char>::empty(),
                        export.content@ == Seq::<char>::empty(),
                        export.types@ == crate::exporter::typescript::types::components_entries(
                            schemas.take(i as int),
                        ),
                    decreases schemas.len() - i,
                {
                    assert(schemas.take(i + 1).drop_last() =~= schemas.take(i as int));
                    let (key, value) = &components.schemas[i];
                    export.types.append("export interface ");
                    export.types.append(key.as_str());
                    export.types.append(" ");
                    let text = TSHTTPClient::write_ref_or_schema_as_js_type(value);
                    export.types.append(text.as_str());
                    i = i + 1;
                }
                assert(schemas.take(i as int) =~= schemas);
                export.types.append("\n\n");
            },
            None => {},
        }
        let ghost head = export.types@;
        let ghost paths = ir.paths@;
        let mut i: usize = 0;
        while i < ir.paths.len()
            invariant
                i <= paths.len(),
                paths == ir.paths@,
                paths.len() <= isize::MAX,
                head == components_part(ir.components),
                counter as int == client_parts(paths.take(i as int)).3,
                counter <= i,
                export.imports@ == Seq::<char>::empty(),
                export.types@ == head + client_parts(paths.take(i as int)).0,
                export.parameters@ == client_parts(paths.take(i as int)).1,
                export.content@ == client_parts(paths.take(i as int)).2,
            decreases paths.len() - i,
        {
            assert(paths.take(i + 1).drop_last() =~= paths.take(i as int));
            let (key, value) = &ir.paths[i];
            match value {
                ReferenceOr::Item(path_data) => {
                    match &path_data.get {
                        Some(operation) => {
                            TSHTTPClient::write_get_route(&mut counter, &mut export, key, operation);
                            assert(export.types@ =~= head + client_parts(paths.take(i + 1)).0);
                        },
                        None => {},
                    }
                },
                ReferenceOr::Reference { .. } => {},
            }
            i = i + 1;
        }
        assert(paths.take(i as int) =~= paths);
        Ok(export)
    }

    /// Appends the types, the parameter and the route of the get operation
    /// `operation` on `key`; an unnamed one takes the next number.
    fn write_get_route(counter: &mut i64, acc: &mut TSExport, key: &String, operation: &Operation)
        requires
            0 <= *old(counter) < i64::MAX,
        ensures
            *final(counter) == if operation.operation_id is None {
                *old(counter) + 1
            } else {
                *old(counter) as int
            },
            final(acc).imports@ == old(acc).imports@,
            final(acc).types@ == old(acc).types@ + client_types(
                *operation,
                client_operation_name(*operation, *final(counter) as int),
            ),
            final(acc).parameters@ == old(acc).parameters@ + client_parameters(
                client_operation_name(*operation, *final(counter) as int),
            ),
            final(acc).content@ == old(acc).content@ + client_content(
                key@,
                client_operation_name(*operation, *final(counter) as int),
            ),
    {
        let id = match &operation.operation_id {
            Some(value) => value.clone(),
            None => {
                *counter = *counter + 1;
                let mut name = String::from_str("create");
                let number = i64_to_decimal(*counter);
                name.append(number.as_str());
                name
            },
        };
        acc.types.append("export interface ");
        acc.types.append(id.as_str());
        acc.types.append("Query {\n\t");
        let ghost parameters = operation.parameters@;
        let ghost start = acc.types@;
        let ghost imports = acc.imports@;
        let ghost route_parameters = acc.parameters@;
        let ghost content = acc.content@;
        let mut i: usize = 0;
        while i < operation.parameters.len()
            invariant
                i <= parameters.len(),
                parameters == operation.parameters@,
                acc.types@ == start + parameters_text(parameter_items(parameters.take(i as int))),
                acc.imports@ == imports,
                acc.parameters@ == route_parameters,
                acc.content@ == content,
            decreases parameters.len() - i,
        {
            assert(parameters.take(i + 1).drop_last() =~= parameters.take(i as int));
            match &operation.parameters[i] {
                ReferenceOr::Item(parameter) => {
                    let ghost items = parameter_items(parameters.take(i as int));
                    assert(parameter_items(parameters.take(i + 1)) == items.push(*parameter));
                    assert(items.push(*parameter).drop_last() =~= items);
                    match parameter {
                        Parameter::Query { parameter_data } => {
                            acc.types.append(parameter_data.name.as_str());
                            acc.types.append(": ");
                            match &parameter_data.format {
                                ParameterSchemaOrContent::Schema(ref_or_item) => {
                                    let text = TSHTTPClient::write_ref_or_schema_as_js_type(
                                        ref_or_item,
                                    );
                                    acc.types.append(text.as_str());
                                },
                                ParameterSchemaOrContent::Content(_content) => {},
                            }
                        },
                        _ => {},
                    }
                },
                ReferenceOr::Reference { .. } => {},
            }
            i = i + 1;
        }
        assert(parameters.take(i as int) =~= parameters);
        acc.types.append("\n}\n\n");

        acc.types.append("export type ");
        acc.types.append(id.as_str());
        acc.types.append("Return = ");
        let map = &operation.responses.responses;
        let ghost responses = map@;
        let ghost start_return = acc.types@;
        let mut j: usize = 0;
        while j < map.len()
            invariant
                j <= responses.len(),
                responses == map@,
                acc.types@ == start_return + responses_text(responses.take(j as int)),
                acc.imports@ == imports,
                acc.parameters@ == route_parameters,
                acc.content@ == content,
            decreases responses.len() - j,
        {
            assert(responses.take(j + 1).drop_last() =~= responses.take(j as int));
            match &map[j] {
                ReferenceOr::Item(response) => {
                    let text = TSTypes::parse_content_map(&response.content);
                    acc.types.append(text.as_str());
                },
                ReferenceOr::Reference { .. } => {},
            }
            j = j + 1;
        }
        assert(responses.take(j as int) =~= responses);

        acc.parameters.append(id.as_str());
        acc.parameters.append(": UseCase<");
        acc.parameters.append(id.as_str());
        acc.parameters.append("Query, ");
        acc.parameters.append(id.as_str());
        acc.parameters.append("Return>, router: Router = express.Router()");
        acc.content.append("\n\trouter.get('");
        acc.content.append(key.as_str());
        acc.content.append("', (req: Request<listRootsQuery, {}>, res, next) => {\n\t\t");
        acc.content.append(id.as_str());
        acc.content.append("\n\t\t\t.execute(req.session, req.headers as RequestMetadata, req.query)");
        acc.content.append("\n\t\t\t.then(result => res.json(result), error => res.send())");
        acc.content.append("\n\t})");
    }

    fn write_ref_or_schema_as_js_type(ref_or_item: &ReferenceOr<Schema>) -> (r: String)
        ensures
            r@ == js_ref(*ref_or_item),
    {
        TSTypes::write_ref_or_schema_as_js_type(ref_or_item)
    }

    fn write_boxed_ref_or_schema_as_js_type(ref_or_item: &ReferenceOr<Box<Schema>>) -> (r: String)
        ensures
            r@ == js_boxed(*ref_or_item),
    {
        TSTypes::write_boxed_ref_or_schema_as_js_type(ref_or_item)
    }

    fn write_schema_as_js_type(schema: &Schema) -> (r: String)
        ensures
            r@ == js_type(*schema),
    {
        TSTypes::write_schema_as_js_type(schema)
    }

    /// The name a reference points to: the part after its last `/`.
    pub fn get_type_from_reference(reference: &String) -> (r: String)
        ensures
            r@ == last_segment(reference@),
    {
        TSTypes::get_type_from_reference(reference)
    }
}

} // verus!
