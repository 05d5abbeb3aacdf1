//! An express router for the operations of an API document.
use vstd::prelude::*;
use vstd::string::StringExecFns;
use crate::openapi::{OpenAPI, Operation, PathItem, ReferenceOr};
use crate::text::{i64_to_decimal, int_decimal};

verus! {

/// The verbs that the router serves.
#[allow(non_camel_case_types)]
pub enum HTTP_VERB {
    GET,
    DELETE,
    POST,
    PUT,
}

/// The word of a verb, used in the names of unnamed operations.
pub open spec fn verb_word(verb: HTTP_VERB) -> Seq<char> {
    match verb {
        HTTP_VERB::GET => "get"@,
        HTTP_VERB::DELETE => "delete"@,
        HTTP_VERB::POST => "post"@,
        HTTP_VERB::PUT => "put"@,
    }
}

/// The name of an operation: its id, or the verb and the number after `counter`.
pub open spec fn operation_name(operation: Operation, verb: HTTP_VERB, counter: int) -> Seq<char> {
    match operation.operation_id {
        Some(id) => id@,
        None => verb_word(verb) + int_decimal(counter + 1),
    }
}

/// The imports of the types of the operation named `id`.
pub open spec fn router_imports(id: Seq<char>) -> Seq<char> {
    "\n\t"@ + id + "Query,\n\t"@ + id + "Return,"@
}

/// The router parameter for the use case of the operation named `id`.
pub open spec fn router_parameters(id: Seq<char>) -> Seq<char> {
    "\n\t\t\t"@ + id + ": UseCase<"@ + id + "Query, "@ + id + "Return>,"@
}

/// The route that serves the operation named `id` on `key`.
pub open spec fn router_content(verb: HTTP_VERB, key: Seq<char>, id: Seq<char>) -> Seq<char> {
    (match verb {
        HTTP_VERB::GET => "\n\trouter.get('"@ + key + "', (req: Request<"@ + id
            + "Query>, res, next) => {\n\t\t"@ + id
            + "\n\t\t\t.execute(req.session, req.headers as RequestMetadata, req."@ + "query"@,
        HTTP_VERB::DELETE => "\n\trouter.delete('"@ + key + "', (req: Request<"@ + id
            + "Query>, res, next) => {\n\t\t"@ + id
            + "\n\t\t\t.execute(req.session, req.headers as RequestMetadata, req."@ + "query"@,
        HTTP_VERB::POST => "\n\trouter.post('"@ + key + "', (req: Request<"@ + id
            + "Query>, res, next) => {\n\t\t"@ + id
            + "\n\t\t\t.execute(req.session, req.headers as RequestMetadata, req."@ + "body"@,
        HTTP_VERB::PUT => "\n\trouter.put('"@ + key + "', (req: Request<"@ + id
            + "Query>, res, next) => {\n\t\t"@ + id + id
            + "\n\t\t\t.execute(req.session, req.headers as RequestMetadata, req."@ + "body"@,
    }) + ")\n\t\t\t.then(result => res.json(result), error => res.send())\n\t})"@
}

/// The imports, parameters and routes of a router, as text.
pub struct TSExport {
    pub imports: String,
    pub parameters: String,
    pub content: String,
}

impl TSExport {
    /// The three parts of a router as text.
    pub open spec fn parts(self) -> (Seq<char>, Seq<char>, Seq<char>) {
        (self.imports@, self.parameters@, self.content@)
    }

    /// A router with the given imports, parameters and routes.
    pub fn new(imports: String, parameters: String, content: String) -> (r: TSExport)
        ensures
            r.parts() == (imports@, parameters@, content@),
    {
        TSExport { imports, parameters, content }
    }
}

/// The router parts after serving `operation` (where there is one) on `key`.
#[verifier::opaque]
pub open spec fn handle_part(
    acc: (Seq<char>, Seq<char>, Seq<char>),
    key: Seq<char>,
    operation: Option<Operation>,
    verb: HTTP_VERB,
) -> (Seq<char>, Seq<char>, Seq<char>) {
    match operation {
        Some(op) => {
            let id = operation_name(op, verb, 0);
            (acc.0 + router_imports(id), acc.1 + router_parameters(id), acc.2 + router_content(verb, key, id))
        },
        None => acc,
    }
}

/// The router parts after serving the delete, get, post and put operations
/// of a path given in place.
pub open spec fn path_parts(
    acc: (Seq<char>, Seq<char>, Seq<char>),
    key: Seq<char>,
    item: ReferenceOr<PathItem>,
) -> (Seq<char>, Seq<char>, Seq<char>) {
    match item {
        ReferenceOr::Item(path_data) => handle_part(
            handle_part(
                handle_part(
                    handle_part(acc, key, path_data.delete, HTTP_VERB::DELETE),
                    key,
                    path_data.get,
                    HTTP_VERB::GET,
                ),
                key,
                path_data.post,
                HTTP_VERB::POST,
            ),
            key,
            path_data.put,
            HTTP_VERB::PUT,
        ),
        ReferenceOr::Reference { .. } => acc,
    }
}

/// The router parts for the paths, in order.
pub open spec fn server_parts(paths: Seq<(String, ReferenceOr<PathItem>)>) -> (
    Seq<char>,
    Seq<char>,
    Seq<char>,
)
    decreases paths.len(),
{
    if paths.len() == 0 {
        (Seq::empty(), Seq::empty(), Seq::empty())
    } else {
        path_parts(server_parts(paths.drop_last()), paths.last().0@, paths.last().1)
    }
}

spec fn empty_parts() -> (Seq<char>, Seq<char>, Seq<char>) {
    (Seq::empty(), Seq::empty(), Seq::empty())
}

spec fn append_parts(
    a: (Seq<char>, Seq<char>, Seq<char>),
    b: (Seq<char>, Seq<char>, Seq<char>),
) -> (Seq<char>, Seq<char>, Seq<char>) {
    (a.0 + b.0, a.1 + b.1, a.2 + b.2)
}

proof fn lemma_handle_appends(
    acc: (Seq<char>, Seq<char>, Seq<char>),
    key: Seq<char>,
    operation: Option<Operation>,
    verb: HTTP_VERB,
)
    ensures
        handle_part(acc, key, operation, verb) == append_parts(
            acc,
            handle_part(empty_parts(), key, operation, verb),
        ),
{
    reveal(handle_part);
    match operation {
        Some(op) => {
            let h = handle_part(empty_parts(), key, operation, verb);
            assert(h.0 =~= router_imports(operation_name(op, verb, 0)));
            assert(h.1 =~= router_parameters(operation_name(op, verb, 0)));
            assert(h.2 =~= router_content(verb, key, operation_name(op, verb, 0)));
        },
        None => {
            assert(append_parts(acc, empty_parts()) =~= acc);
        },
    }
}

proof fn lemma_path_appends(acc: (Seq<char>, Seq<char>, Seq<char>), key: Seq<char>, item: ReferenceOr<PathItem>)
    ensures
        path_parts(acc, key, item) == append_parts(acc, path_parts(empty_parts(), key, item)),
{
    match item {
        ReferenceOr::Item(pd) => {
            let e = empty_parts();
            let a1 = handle_part(acc, key, pd.delete, HTTP_VERB::DELETE);
            let e1 = handle_part(e, key, pd.delete, HTTP_VERB::DELETE);
            lemma_handle_appends(acc, key, pd.delete, HTTP_VERB::DELETE);
            lemma_handle_appends(e, key, pd.delete, HTTP_VERB::DELETE);
            let a2 = handle_part(a1, key, pd.get, HTTP_VERB::GET);
            let e2 = handle_part(e1, key, pd.get, HTTP_VERB::GET);
            lemma_handle_appends(a1, key, pd.get, HTTP_VERB::GET);
            lemma_handle_appends(e1, key, pd.get, HTTP_VERB::GET);
            let a3 = handle_part(a2, key, pd.post, HTTP_VERB::POST);
            let e3 = handle_part(e2, key, pd.post, HTTP_VERB::POST);
            lemma_handle_appends(a2, key, pd.post, HTTP_VERB::POST);
            lemma_handle_appends(e2, key, pd.post, HTTP_VERB::POST);
            lemma_handle_appends(a3, key, pd.put, HTTP_VERB::PUT);
            lemma_handle_appends(e3, key, pd.put, HTTP_VERB::PUT);
            let h1 = handle_part(e, key, pd.delete, HTTP_VERB::DELETE);
            let h2 = handle_part(e, key, pd.get, HTTP_VERB::GET);
            let h3 = handle_part(e, key, pd.post, HTTP_VERB::POST);
            let h4 = handle_part(e, key, pd.put, HTTP_VERB::PUT);
            let full = path_parts(acc, key, item);
            let alone = path_parts(e, key, item);
            assert(full.0 =~= acc.0 + (e.0 + h1.0 + h2.0 + h3.0 + h4.0));
            assert(alone.0 =~= e.0 + h1.0 + h2.0 + h3.0 + h4.0);
            assert(full.1 =~= acc.1 + (e.1 + h1.1 + h2.1 + h3.1 + h4.1));
            assert(alone.1 =~= e.1 + h1.1 + h2.1 + h3.1 + h4.1);
            assert(full.2 =~= acc.2 + (e.2 + h1.2 + h2.2 + h3.2 + h4.2));
            assert(alone.2 =~= e.2 + h1.2 + h2.2 + h3.2 + h4.2);
        },
        ReferenceOr::Reference { .. } => {
            assert(append_parts(acc, empty_parts()) =~= acc);
        },
    }
}

/// The router parts accumulate over the paths: the parts of the paths
/// `first` followed by `second` are those of `first` followed by those of
/// `second`, in each of the imports, the parameters and the routes. So every
/// operation of every path given in place keeps its import, its parameter
/// and its route, in the order of the paths.
pub proof fn law_server_parts_concat(
    first: Seq<(String, ReferenceOr<PathItem>)>,
    second: Seq<(String, ReferenceOr<PathItem>)>,
)
    ensures
        server_parts(first + second).0 == server_parts(first).0 + server_parts(second).0,
        server_parts(first + second).1 == server_parts(first).1 + server_parts(second).1,
        server_parts(first + second).2 == server_parts(first).2 + server_parts(second).2,
    decreases second.len(),
{
    if second.len() == 0 {
        assert(first + second =~= first);
        assert(append_parts(server_parts(first), empty_parts()) =~= server_parts(first));
    } else {
        let shorter = second.drop_last();
        law_server_parts_concat(first, shorter);
        assert((first + second).drop_last() =~= first + shorter);
        assert((first + second).last() == second.last());
        let key = second.last().0@;
        let item = second.last().1;
        lemma_path_appends(server_parts(first + shorter), key, item);
        lemma_path_appends(server_parts(shorter), key, item);
        let p = path_parts(empty_parts(), key, item);
        assert(server_parts(first).0 + server_parts(shorter).0 + p.0 =~= server_parts(first).0 + (
        server_parts(shorter).0 + p.0));
        assert(server_parts(first).1 + server_parts(shorter).1 + p.1 =~= server_parts(first).1 + (
        server_parts(shorter).1 + p.1));
        assert(server_parts(first).2 + server_parts(shorter).2 + p.2 =~= server_parts(first).2 + (
        server_parts(shorter).2 + p.2));
    }
}

/// The imports that every router file starts with.
pub open spec fn server_header() -> Seq<char> {
    "import * as express from 'express'\
                \nimport { Router } from 'express'\
                \n\nimport { Request, RequestMetadata, UseCase } from './genericsTypes'\
                \n\nimport {"@
}

/// The router file of a document.
pub open spec fn server_export(ir: OpenAPI) -> Seq<char> {
    let parts = server_parts(ir.paths@);
    server_header() + parts.0 + "\n} from './types'\n\n"@ + "export function buildRouter("@ + parts.1
        + "\n\t\t\trouter: Router = express.Router()\n\t\t) {"@ + parts.2 + "\n\treturn router\n}"@
}

pub struct TSHTTPServer {}

impl TSHTTPServer {
    /// The router file of `ir`: one route per delete, get, post and put
    /// operation of its paths, in order. Never fails.
    pub fn export(ir: &OpenAPI) -> (r: Result<String, String>)
        ensures
            r matches Ok(s) && s@ == server_export(*ir),
    {
        match TSHTTPServer::generate_service_server(ir) {
            Ok(export) => {
                let mut output = String::from_str(
                    "import * as express from 'express'\
                \nimport { Router } from 'express'\
                \n\nimport { Request, RequestMetadata, UseCase } from './genericsTypes'\
                \n\nimport {",
                );
                if !export.imports.as_str().is_empty() {
                    output.append(export.imports.as_str());
                }
                output.append("\n} from './types'\n\n");
                output.append("export function buildRouter(");
                output.append(export.parameters.as_str());
                output.append("\n\t\t\trouter: Router = express.Router()\n\t\t) {");
                output.append(export.content.as_str());
                output.append("\n\treturn router\n}");
                Ok(output)
            },
            Err(e) => Err(e),
        }
    }

    fn generate_service_server(ir: &OpenAPI) -> (r: Result<TSExport, String>)
        ensures
            r matches Ok(export) && export.parts() == server_parts(ir.paths@),
    {
        let counter: i64 = 0;
        let mut export = TSExport::new(String::new(), String::new(), String::new());
        let ghost paths = ir.paths@;
        let mut i: usize = 0;
        while i < ir.paths.len()
            invariant
                i <= paths.len(),
                paths == ir.paths@,
                counter == 0,
                export.parts() == server_parts(paths.take(i as int)),
            decreases paths.len() - i,
        {
            assert(paths.take(i + 1).drop_last() =~= paths.take(i as int));
            let (key, value) = &ir.paths[i];
            match value {
                ReferenceOr::Item(path_data) => {
                    TSHTTPServer::write_handle_for_http_verb(
                        counter,
                        &mut export,
                        &key,
                        &path_data.delete,
                        &HTTP_VERB::DELETE,
                    );
                    TSHTTPServer::write_handle_for_http_verb(
                        counter,
                        &mut export,
                        &key,
                        &path_data.get,
                        &HTTP_VERB::GET,
                    );
                    TSHTTPServer::write_handle_for_http_verb(
                        counter,
                        &mut export,
                        &key,
                        &path_data.post,
                        &HTTP_VERB::POST,
                    );
                    TSHTTPServer::write_handle_for_http_verb(
                        counter,
                        &mut export,
                        &key,
                        &path_data.put,
                        &HTTP_VERB::PUT,
                    );
                },
                ReferenceOr::Reference { .. } => {},
            }
            i = i + 1;
        }
        assert(paths.take(i as int) =~= paths);
        Ok(export)
    }

    fn write_handle_for_http_verb(
        counter: i64,
        acc: &mut TSExport,
        key: &&String,
        get: &Option<Operation>,
        verb: &HTTP_VERB,
    )
        requires
            counter == 0,
        ensures
            final(acc).parts() == handle_part(old(acc).parts(), key@, *get, *verb),
    {
        proof {
            reveal(handle_part);
        }
        match get {
            Some(operation) => {
                let id = TSHTTPServer::get_name_from_operation(counter, &verb, &operation);
                TSHTTPServer::write_build_router_part(acc, &verb, &key, &id);
            },
            None => {},
        }
    }

    /// Appends to `acc` the imports, the use case parameter and the route of
    /// the operation named `id`, served with `http_verb` on `key`.
    #[verifier::spinoff_prover]
    pub fn write_build_router_part(acc: &mut TSExport, http_verb: &HTTP_VERB, key: &&String, id: &String)
        ensures
            final(acc).imports@ == old(acc).imports@ + router_imports(id@),
            final(acc).parameters@ == old(acc).parameters@ + router_parameters(id@),
            final(acc).content@ == old(acc).content@ + router_content(*http_verb, key@, id@),
    {
        acc.imports.append("\n\t");
        acc.imports.append(id.as_str());
        acc.imports.append("Query,\n\t");
        acc.imports.append(id.as_str());
        acc.imports.append("Return,");
        assert(acc.imports@ =~= old(acc).imports@ + router_imports(id@));

        acc.parameters.append("\n\t\t\t");
        acc.parameters.append(id.as_str());
        acc.parameters.append(": UseCase<");
        acc.parameters.append(id.as_str());
        acc.parameters.append("Query, ");
        acc.parameters.append(id.as_str());
        acc.parameters.append("Return>,");
        assert(acc.parameters@ =~= old(acc).parameters@ + router_parameters(id@));
        let ghost content_before = acc.content@;

        match http_verb {
            HTTP_VERB::GET => {
                acc.content.append("\n\trouter.get('");
                acc.content.append(key.as_str());
                acc.content.append("', (req: Request<");
                acc.content.append(id.as_str());
                acc.content.append("Query>, res, next) => {\n\t\t");
                acc.content.append(id.as_str());
                acc.content.append("\n\t\t\t.execute(req.session, req.headers as RequestMetadata, req.");
                acc.content.append("query");
            },
            HTTP_VERB::DELETE => {
                acc.content.append("\n\trouter.delete('");
                acc.content.append(key.as_str());
                acc.content.append("', (req: Request<");
                acc.content.append(id.as_str());
                acc.content.append("Query>, res, next) => {\n\t\t");
                acc.content.append(id.as_str());
                acc.content.append("\n\t\t\t.execute(req.session, req.headers as RequestMetadata, req.");
                acc.content.append("query");
            },
            HTTP_VERB::POST => {
                acc.content.append("\n\trouter.post('");
                acc.content.append(key.as_str());
                acc.content.append("', (req: Request<");
                acc.content.append(id.as_str());
                acc.content.append("Query>, res, next) => {\n\t\t");
                acc.content.append(id.as_str());
                acc.content.append("\n\t\t\t.execute(req.session, req.headers as RequestMetadata, req.");
                acc.content.append("body");
            },
            HTTP_VERB::PUT => {
                acc.content.append("\n\trouter.put('");
                acc.content.append(key.as_str());
                acc.content.append("', (req: Request<");
                acc.content.append(id.as_str());
                acc.content.append("Query>, res, next) => {\n\t\t");
                acc.content.append(id.as_str());
                acc.content.append(id.as_str());
                acc.content.append("\n\t\t\t.execute(req.session, req.headers as RequestMetadata, req.");
                acc.content.append("body");
            },
        }
        acc.content.append(")\n\t\t\t.then(result => res.json(result), error => res.send())\n\t})");
        assert(acc.content@ =~= content_before + router_content(*http_verb, key@, id@));
    }

    fn get_name_from_operation(counter: i64, http_verb: &HTTP_VERB, operation: &&Operation) -> (r:
        String)
        requires
            counter < i64::MAX,
        ensures
            r@ == operation_name(**operation, *http_verb, counter as int),
    {
        match &operation.operation_id {
            Some(value) => value.clone(),
            None => {
                let body = match http_verb {
                    HTTP_VERB::GET => "get",
                    HTTP_VERB::DELETE => "delete",
                    HTTP_VERB::POST => "post",
                    HTTP_VERB::PUT => "put",
                };
                let counter = counter + 1;
                let mut name = String::from_str(body);
                let number = i64_to_decimal(counter);
                name.append(number.as_str());
                name
            },
        }
    }
}

} // verus!
