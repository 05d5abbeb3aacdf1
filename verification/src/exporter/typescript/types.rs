//! TypeScript types for the operations and schemas of an API document.
use vstd::prelude::*;
use vstd::string::StrSliceExecFns;
use vstd::string::StringExecFns;
use crate::openapi::{
    Components, MediaType, OpenAPI, Operation, Parameter, ParameterSchemaOrContent,
    PathItem, ReferenceOr, RequestBody, Response, Schema, SchemaKind, Type,
};
use crate::text::{
    int_decimal, join, join_strings, last_segment, i64_to_decimal, lemma_occurs_behind,
    lemma_occurs_in_front, lemma_occurs_in_middle, occurs,
};
use crate::exporter::typescript::http_server::{
    handle_part, operation_name as router_operation_name, path_parts, router_imports,
    HTTP_VERB as RouterVerb,
};

verus! {

broadcast use vstd::std_specs::vec::group_vec_axioms;

/// Whether one of the `required` names is `key`.
pub open spec fn is_required(required: Seq<String>, key: Seq<char>) -> bool {
    exists|i: int| 0 <= i < required.len() && (#[trigger] required[i])@ == key
}

/// The TypeScript type of a schema of the document.
pub open spec fn js_type(schema: Schema) -> Seq<char>
    decreases schema, 0int,
{
    match schema.schema_kind {
        SchemaKind::Type(Type::Array(array)) => js_boxed(array.items) + "[]"@,
        SchemaKind::Type(Type::String) => "string"@,
        SchemaKind::Type(Type::Number) => "number"@,
        SchemaKind::Type(Type::Integer) => "number"@,
        SchemaKind::Type(Type::Object(object)) => "{\n\t"@ + join(
            js_properties(object.properties@, object.required@),
            ",\n\t"@,
        ) + "\n}"@,
        SchemaKind::Type(Type::Boolean) => "boolean"@,
        SchemaKind::OneOf => Seq::empty(),
        SchemaKind::AllOf => Seq::empty(),
        SchemaKind::AnyOf => Seq::empty(),
        SchemaKind::Any => "any"@,
    }
}

/// The TypeScript type of a boxed schema or of a reference: the name after
/// the last `/` of the reference.
pub open spec fn js_boxed(value: ReferenceOr<Box<Schema>>) -> Seq<char>
    decreases value, 1int,
{
    match value {
        ReferenceOr::Item(schema) => js_type(*schema),
        ReferenceOr::Reference { reference } => last_segment(reference@),
    }
}

/// The TypeScript type of a schema or of a reference.
pub open spec fn js_ref(value: ReferenceOr<Schema>) -> Seq<char> {
    match value {
        ReferenceOr::Item(schema) => js_type(schema),
        ReferenceOr::Reference { reference } => last_segment(reference@),
    }
}

/// The entries of an object type, one per property: its name, `?` where it
/// is not required, and its type.
pub open spec fn js_properties(
    properties: Seq<(String, ReferenceOr<Box<Schema>>)>,
    required: Seq<String>,
) -> Seq<Seq<char>>
    decreases properties, 0int,
{
    if properties.len() == 0 {
        Seq::empty()
    } else {
        let last = properties.last();
        js_properties(properties.subrange(0, properties.len() - 1), required).push(
            last.0@ + (if is_required(required, last.0@) {
                ": "@
            } else {
                "?: "@
            }) + js_boxed(last.1),
        )
    }
}

/// The type of one content entry: that of its schema where the media type
/// is `application/json`, nothing otherwise.
pub open spec fn media_text(app_type: Seq<char>, media: MediaType) -> Seq<char> {
    if app_type == "application/json"@ {
        match media.schema {
            Some(value) => js_ref(value),
            None => Seq::empty(),
        }
    } else {
        Seq::empty()
    }
}

/// The types of the content entries, one after the other.
pub open spec fn content_text(content: Seq<(String, MediaType)>) -> Seq<char>
    decreases content.len(),
{
    if content.len() == 0 {
        Seq::empty()
    } else {
        content_text(content.drop_last()) + media_text(content.last().0@, content.last().1)
    }
}

/// The interface declarations of the named schemas, then an empty line.
pub open spec fn components_text(schemas: Seq<(String, ReferenceOr<Schema>)>) -> Seq<char> {
    components_entries(schemas) + "\n\n"@
}

/// One interface declaration per named schema.
pub open spec fn components_entries(schemas: Seq<(String, ReferenceOr<Schema>)>) -> Seq<char>
    decreases schemas.len(),
{
    if schemas.len() == 0 {
        Seq::empty()
    } else {
        components_entries(schemas.drop_last()) + "export interface "@ + schemas.last().0@ + " "@
            + js_ref(schemas.last().1)
    }
}

/// The verbs of the operations named by the exporters.
#[allow(non_camel_case_types)]
pub enum HTTP_VERB {
    GET,
    DELETE,
    LIST,
    POST,
    PUT,
}

/// The word of a verb, used in the names of unnamed operations.
pub open spec fn verb_word(verb: HTTP_VERB) -> Seq<char> {
    match verb {
        HTTP_VERB::GET => "get"@,
        HTTP_VERB::DELETE => "delete"@,
        HTTP_VERB::LIST => "list"@,
        HTTP_VERB::POST => "post"@,
        HTTP_VERB::PUT => "put"@,
    }
}

/// The name of an operation: its id, or the verb and the number after `counter`.
pub open spec fn operation_name(operation: Operation, verb: HTTP_VERB, counter: int) -> Seq<char> {
    match operation.operation_id {
        Some(id) => id@,
        None => verb_word(verb) + int_decimal(counter + 1),
    }
}

/// The references among the parameters, whole, in order.
pub open spec fn parameter_references(parameters: Seq<ReferenceOr<Parameter>>) -> Seq<Seq<char>>
    decreases parameters.len(),
{
    if parameters.len() == 0 {
        Seq::empty()
    } else {
        let rest = parameter_references(parameters.drop_last());
        match parameters.last() {
            ReferenceOr::Reference { reference } => rest.push(reference@),
            ReferenceOr::Item(_) => rest,
        }
    }
}

/// The parameters given in place, in order.
pub open spec fn parameter_items(parameters: Seq<ReferenceOr<Parameter>>) -> Seq<Parameter>
    decreases parameters.len(),
{
    if parameters.len() == 0 {
        Seq::empty()
    } else {
        let rest = parameter_items(parameters.drop_last());
        match parameters.last() {
            ReferenceOr::Reference { .. } => rest,
            ReferenceOr::Item(parameter) => rest.push(parameter),
        }
    }
}

/// The entry of a query parameter: its name and type; nothing for other parameters.
pub open spec fn parameter_text(parameter: Parameter) -> Seq<char> {
    match parameter {
        Parameter::Query { parameter_data } => parameter_data.name@ + ": "@ + match parameter_data.format {
            ParameterSchemaOrContent::Schema(value) => js_ref(value),
            ParameterSchemaOrContent::Content(_) => Seq::empty(),
        },
        _ => Seq::empty(),
    }
}

/// The entries of the parameters, one after the other.
pub open spec fn parameters_text(parameters: Seq<Parameter>) -> Seq<char>
    decreases parameters.len(),
{
    if parameters.len() == 0 {
        Seq::empty()
    } else {
        parameters_text(parameters.drop_last()) + parameter_text(parameters.last())
    }
}

/// The type of a request body: that of its content, or the whole reference.
pub open spec fn body_types(body: Option<ReferenceOr<RequestBody>>) -> Seq<Seq<char>> {
    match body {
        None => Seq::empty(),
        Some(ReferenceOr::Item(body)) => seq![content_text(body.content@)],
        Some(ReferenceOr::Reference { reference }) => seq![reference@],
    }
}

/// The alternatives of the query type of an operation: referenced
/// parameters, the body, then an object of the parameters given in place.
pub open spec fn query_types(operation: Operation) -> Seq<Seq<char>> {
    let items = parameter_items(operation.parameters@);
    parameter_references(operation.parameters@) + body_types(operation.request_body) + if items.len()
        > 0 {
        seq!["{\n\t"@ + parameters_text(items) + "\n}"@]
    } else {
        Seq::empty()
    }
}

/// The query type declaration of the operation named `id`.
pub open spec fn query_interface(operation: Operation, id: Seq<char>) -> Seq<char> {
    "export type "@ + id + "Query = "@ + join(query_types(operation), " | "@) + "\n\n"@
}

/// The types of the responses given in place, one after the other.
pub open spec fn responses_text(responses: Seq<ReferenceOr<Response>>) -> Seq<char>
    decreases responses.len(),
{
    if responses.len() == 0 {
        Seq::empty()
    } else {
        responses_text(responses.drop_last()) + match responses.last() {
            ReferenceOr::Item(response) => content_text(response.content@),
            ReferenceOr::Reference { .. } => Seq::empty(),
        }
    }
}

/// The return type declaration of the operation named `id`.
pub open spec fn return_type(operation: Operation, id: Seq<char>) -> Seq<char> {
    "export type "@ + id + "Return = "@ + responses_text(operation.responses.responses@) + "\n\n"@
}

/// The query and return types of an operation, where there is one.
pub open spec fn operation_types(operation: Option<Operation>, verb: HTTP_VERB) -> Seq<char> {
    match operation {
        Some(op) => {
            let id = operation_name(op, verb, 0);
            query_interface(op, id) + return_type(op, id)
        },
        None => Seq::empty(),
    }
}

/// The types of the get and post operations of a path given in place.
pub open spec fn path_types(item: ReferenceOr<PathItem>) -> Seq<char> {
    match item {
        ReferenceOr::Item(path_data) => operation_types(path_data.get, HTTP_VERB::GET)
            + operation_types(path_data.post, HTTP_VERB::POST),
        ReferenceOr::Reference { .. } => Seq::empty(),
    }
}

/// The types of the paths, one after the other.
pub open spec fn paths_types(paths: Seq<(String, ReferenceOr<PathItem>)>) -> Seq<char>
    decreases paths.len(),
{
    if paths.len() == 0 {
        Seq::empty()
    } else {
        paths_types(paths.drop_last()) + path_types(paths.last().1)
    }
}

/// The interface declarations of the document's components, where it has any.
pub open spec fn components_part(components: Option<Components>) -> Seq<char> {
    match components {
        Some(c) => components_text(c.schemas@),
        None => Seq::empty(),
    }
}

/// The types file of a document: its component interfaces, then the types of its operations.
pub open spec fn types_export(ir: OpenAPI) -> Seq<char> {
    components_part(ir.components) + paths_types(ir.paths@)
}

/// The types of paths `first` followed by `second` are those of `first`
/// followed by those of `second`: the types of every path are kept, in order.
pub proof fn law_paths_types_concat(first: Seq<(String, ReferenceOr<PathItem>)>, second: Seq<(String, ReferenceOr<PathItem>)>)
    ensures
        paths_types(first + second) == paths_types(first) + paths_types(second),
    decreases second.len(),
{
    if second.len() == 0 {
        assert(first + second =~= first);
        assert(paths_types(first) + Seq::<char>::empty() =~= paths_types(first));
    } else {
        let shorter = second.drop_last();
        law_paths_types_concat(first, shorter);
        assert((first + second).drop_last() =~= first + shorter);
        assert((first + second).last() == second.last());
        assert(paths_types(first) + (paths_types(shorter) + path_types(second.last().1)) =~= (paths_types(first) + paths_types(shorter)) + path_types(second.last().1));
    }
}

/// The interfaces of named schemas `first` followed by `second` are those of
/// `first` followed by those of `second`: every named schema keeps its interface.
pub proof fn law_components_concat(first: Seq<(String, ReferenceOr<Schema>)>, second: Seq<(String, ReferenceOr<Schema>)>)
    ensures
        components_entries(first + second) == components_entries(first) + components_entries(second),
    decreases second.len(),
{
    if second.len() == 0 {
        assert(first + second =~= first);
        assert(components_entries(first) + Seq::<char>::empty() =~= components_entries(first));
    } else {
        let shorter = second.drop_last();
        law_components_concat(first, shorter);
        assert((first + second).drop_last() =~= first + shorter);
        assert((first + second).last() == second.last());
        assert(components_entries(first) + (components_entries(shorter) + "export interface "@ + second.last().0@ + " "@ + js_ref(second.last().1)) =~= (components_entries(first) + components_entries(shorter)) + "export interface "@ + second.last().0@ + " "@ + js_ref(second.last().1));
    }
}

/// The type of content entries `first` followed by `second` is that of
/// `first` followed by that of `second`.
pub proof fn law_content_concat(first: Seq<(String, MediaType)>, second: Seq<(String, MediaType)>)
    ensures
        content_text(first + second) == content_text(first) + content_text(second),
    decreases second.len(),
{
    if second.len() == 0 {
        assert(first + second =~= first);
        assert(content_text(first) + Seq::<char>::empty() =~= content_text(first));
    } else {
        let shorter = second.drop_last();
        law_content_concat(first, shorter);
        assert((first + second).drop_last() =~= first + shorter);
        assert((first + second).last() == second.last());
        assert(content_text(first) + (content_text(shorter) + media_text(second.last().0@, second.last().1)) =~= (content_text(first) + content_text(shorter)) + media_text(second.last().0@, second.last().1));
    }
}

/// The type of responses `first` followed by `second` is that of `first`
/// followed by that of `second`: every response given in place is kept.
pub proof fn law_responses_concat(first: Seq<ReferenceOr<Response>>, second: Seq<ReferenceOr<Response>>)
    ensures
        responses_text(first + second) == responses_text(first) + responses_text(second),
    decreases second.len(),
{
    if second.len() == 0 {
        assert(first + second =~= first);
        assert(responses_text(first) + Seq::<char>::empty() =~= responses_text(first));
    } else {
        let shorter = second.drop_last();
        law_responses_concat(first, shorter);
        assert((first + second).drop_last() =~= first + shorter);
        assert((first + second).last() == second.last());
        assert(responses_text(first) + (responses_text(shorter) + match second.last() {
            ReferenceOr::Item(response) => content_text(response.content@),
            ReferenceOr::Reference { .. } => Seq::empty(),
        }) =~= (responses_text(first) + responses_text(shorter)) + match second.last() {
            ReferenceOr::Item(response) => content_text(response.content@),
            ReferenceOr::Reference { .. } => Seq::empty(),
        });
    }
}

/// The entries of parameters `first` followed by `second` are those of
/// `first` followed by those of `second`.
pub proof fn law_parameters_concat(first: Seq<Parameter>, second: Seq<Parameter>)
    ensures
        parameters_text(first + second) == parameters_text(first) + parameters_text(second),
    decreases second.len(),
{
    if second.len() == 0 {
        assert(first + second =~= first);
        assert(parameters_text(first) + Seq::<char>::empty() =~= parameters_text(first));
    } else {
        let shorter = second.drop_last();
        law_parameters_concat(first, shorter);
        assert((first + second).drop_last() =~= first + shorter);
        assert((first + second).last() == second.last());
        assert(parameters_text(first) + (parameters_text(shorter) + parameter_text(second.last())) =~= (parameters_text(first) + parameters_text(shorter)) + parameter_text(second.last()));
    }
}

/// The query and return types of an operation are declared under the name
/// given to it.
proof fn lemma_operation_declares(op: Operation, verb: HTTP_VERB)
    ensures
        occurs(
            operation_types(Some(op), verb),
            "export type "@ + operation_name(op, verb, 0) + "Query = "@,
        ),
        occurs(
            operation_types(Some(op), verb),
            "export type "@ + operation_name(op, verb, 0) + "Return = "@,
        ),
{
    let id = operation_name(op, verb, 0);
    let query = "export type "@ + id + "Query = "@;
    let ret = "export type "@ + id + "Return = "@;
    let q = query_interface(op, id);
    let r = return_type(op, id);
    assert(q + r =~= query + (join(query_types(op), " | "@) + "\n\n"@ + r));
    lemma_occurs_in_middle(Seq::empty(), query, join(query_types(op), " | "@) + "\n\n"@ + r);
    assert(Seq::<char>::empty() + query + (join(query_types(op), " | "@) + "\n\n"@ + r) =~= q + r);
    assert(q + r =~= q + ret + (responses_text(op.responses.responses@) + "\n\n"@));
    lemma_occurs_in_middle(q, ret, responses_text(op.responses.responses@) + "\n\n"@);
}

/// The router file imports, for each operation it serves, the names `id`
/// of its query and return types; these are the imports of the post operation.
proof fn lemma_router_imports_post(key: Seq<char>, path_data: PathItem, op: Operation)
    requires
        path_data.post == Some(op),
    ensures
        occurs(
            path_parts((Seq::empty(), Seq::empty(), Seq::empty()), key, ReferenceOr::Item(path_data)).0,
            router_imports(router_operation_name(op, RouterVerb::POST, 0)),
        ),
{
    reveal(handle_part);
    let id = router_operation_name(op, RouterVerb::POST, 0);
    let empty = (Seq::<char>::empty(), Seq::<char>::empty(), Seq::<char>::empty());
    let before = handle_part(
        handle_part(empty, key, path_data.delete, RouterVerb::DELETE),
        key,
        path_data.get,
        RouterVerb::GET,
    );
    let after = handle_part(before, key, path_data.post, RouterVerb::POST);
    let last = handle_part(after, key, path_data.put, RouterVerb::PUT);
    assert(after.0 == before.0 + router_imports(id));
    match path_data.put {
        Some(put) => {
            let put_imports = router_imports(router_operation_name(put, RouterVerb::PUT, 0));
            assert(last.0 == before.0 + router_imports(id) + put_imports);
            lemma_occurs_in_middle(before.0, router_imports(id), put_imports);
        },
        None => {
            lemma_occurs_in_middle(before.0, router_imports(id), Seq::empty());
        },
    }
}

/// The router file imports the names of the query and return types of the
/// get operation of a path.
proof fn lemma_router_imports_get(key: Seq<char>, path_data: PathItem, op: Operation)
    requires
        path_data.get == Some(op),
    ensures
        occurs(
            path_parts((Seq::empty(), Seq::empty(), Seq::empty()), key, ReferenceOr::Item(path_data)).0,
            router_imports(router_operation_name(op, RouterVerb::GET, 0)),
        ),
{
    reveal(handle_part);
    let id = router_operation_name(op, RouterVerb::GET, 0);
    let empty = (Seq::<char>::empty(), Seq::<char>::empty(), Seq::<char>::empty());
    let before = handle_part(empty, key, path_data.delete, RouterVerb::DELETE);
    let after = handle_part(before, key, path_data.get, RouterVerb::GET);
    let rest = handle_part(
        handle_part(after, key, path_data.post, RouterVerb::POST),
        key,
        path_data.put,
        RouterVerb::PUT,
    );
    let more = rest.0.subrange(after.0.len() as int, rest.0.len() as int);
    assert(rest.0 =~= after.0 + more);
    assert(after.0 == before.0 + router_imports(id));
    lemma_occurs_in_middle(before.0, router_imports(id), more);
}

/// The types file and the router file agree on the names of the types of an
/// operation: for the get and the post operation of a path given in place,
/// the types file declares the query type `idQuery` and the return type
/// `idReturn` where `id` is the name the router file imports for it; an
/// operation without an id is named after its own verb.
pub proof fn law_types_match_router(key: Seq<char>, path_data: PathItem)
    ensures
        path_data.get matches Some(op) ==> {
            let id = router_operation_name(op, RouterVerb::GET, 0);
            &&& occurs(path_types(ReferenceOr::Item(path_data)), "export type "@ + id + "Query = "@)
            &&& occurs(path_types(ReferenceOr::Item(path_data)), "export type "@ + id + "Return = "@)
            &&& occurs(
                path_parts((Seq::empty(), Seq::empty(), Seq::empty()), key, ReferenceOr::Item(path_data)).0,
                router_imports(id),
            )
        },
        path_data.post matches Some(op) ==> {
            let id = router_operation_name(op, RouterVerb::POST, 0);
            &&& occurs(path_types(ReferenceOr::Item(path_data)), "export type "@ + id + "Query = "@)
            &&& occurs(path_types(ReferenceOr::Item(path_data)), "export type "@ + id + "Return = "@)
            &&& occurs(
                path_parts((Seq::empty(), Seq::empty(), Seq::empty()), key, ReferenceOr::Item(path_data)).0,
                router_imports(id),
            )
        },
{
    let get_part = operation_types(path_data.get, HTTP_VERB::GET);
    let post_part = operation_types(path_data.post, HTTP_VERB::POST);
    if let Some(op) = path_data.get {
        assert(operation_name(op, HTTP_VERB::GET, 0) == router_operation_name(op, RouterVerb::GET, 0));
        lemma_operation_declares(op, HTTP_VERB::GET);
        lemma_occurs_in_front(get_part, post_part, "export type "@ + operation_name(op, HTTP_VERB::GET, 0) + "Query = "@);
        lemma_occurs_in_front(get_part, post_part, "export type "@ + operation_name(op, HTTP_VERB::GET, 0) + "Return = "@);
        lemma_router_imports_get(key, path_data, op);
    }
    if let Some(op) = path_data.post {
        assert(operation_name(op, HTTP_VERB::POST, 0) == router_operation_name(op, RouterVerb::POST, 0));
        lemma_operation_declares(op, HTTP_VERB::POST);
        lemma_occurs_behind(get_part, post_part, "export type "@ + operation_name(op, HTTP_VERB::POST, 0) + "Query = "@);
        lemma_occurs_behind(get_part, post_part, "export type "@ + operation_name(op, HTTP_VERB::POST, 0) + "Return = "@);
        lemma_router_imports_post(key, path_data, op);
    }
}

pub struct TSTypes {}

impl TSTypes {
    /// The types file of `ir`: the interfaces of its component schemas, then
    /// the query and return types of its get and post operations. Never fails.
    pub fn export(ir: &OpenAPI) -> (r: Result<String, String>)
        ensures
            r matches Ok(s) && s@ == types_export(*ir),
    {
        TSTypes::generate_service_client(ir)
    }

    fn generate_service_client(ir: &OpenAPI) -> (r: Result<String, String>)
        ensures
            r matches Ok(s) && s@ == types_export(*ir),
    {
        let counter: i64 = 0;
        let mut export = String::new();
        match &ir.components {
            Some(components) => {
                TSTypes::generate_components_schemas(&mut export, components);
            },
            None => {},
        }
        let ghost paths = ir.paths@;
        let ghost head = export@;
        let mut i: usize = 0;
        while i < ir.paths.len()
            invariant
                i <= paths.len(),
                paths == ir.paths@,
                counter == 0,
                export@ == head + paths_types(paths.take(i as int)),
            decreases paths.len() - i,
        {
            let (_key, value) = &ir.paths[i];
            TSTypes::write_path_types(counter, &mut export, value);
            assert(paths.take(i + 1).drop_last() =~= paths.take(i as int));
            i = i + 1;
        }
        assert(paths.take(i as int) =~= paths);
        Ok(export)
    }

    /// Appends the types of the get and post operations of a path given in place.
    fn write_path_types(counter: i64, export: &mut String, value: &ReferenceOr<PathItem>)
        requires
            counter == 0,
        ensures
            final(export)@ == old(export)@ + path_types(*value),
    {
        match value {
            ReferenceOr::Item(path_data) => {
                match &path_data.get {
                    Some(operation) => {
                        let verb = HTTP_VERB::GET;
                        let id = TSTypes::get_name_from_operation(counter, &verb, &operation);
                        TSTypes::write_query_interface(export, operation, &id);
                        TSTypes::write_return_type(export, &operation, &id);
                    },
                    None => {},
                }
                match &path_data.post {
                    Some(operation) => {
                        let verb = HTTP_VERB::POST;
                        let id = TSTypes::get_name_from_operation(counter, &verb, &operation);
                        TSTypes::write_query_interface(export, operation, &id);
                        TSTypes::write_return_type(export, &operation, &id);
                    },
                    None => {},
                }
            },
            ReferenceOr::Reference { .. } => {},
        }
    }

    fn write_query_interface(acc: &mut String, operation: &Operation, id: &String)
        ensures
            final(acc)@ == old(acc)@ + query_interface(*operation, id@),
    {
        let mut possibles_types: Vec<String> = Vec::new();
        let mut fields: Vec<&Parameter> = Vec::new();
        let ghost parameters = operation.parameters@;
        let mut i: usize = 0;
        while i < operation.parameters.len()
            invariant
                i <= parameters.len(),
                parameters == operation.parameters@,
                possibles_types@.map_values(|v: String| v@) == parameter_references(
                    parameters.take(i as int),
                ),
                fields@.map_values(|p: &Parameter| *p) == parameter_items(parameters.take(i as int)),
            decreases parameters.len() - i,
        {
            assert(parameters.take(i + 1).drop_last() =~= parameters.take(i as int));
            match &operation.parameters[i] {
                ReferenceOr::Item(parameter) => {
                    fields.push(parameter);
                    assert(fields@.map_values(|p: &Parameter| *p) =~= parameter_items(
                        parameters.take(i + 1),
                    ));
                },
                ReferenceOr::Reference { reference } => {
                    possibles_types.push(reference.clone());
                    assert(possibles_types@.map_values(|v: String| v@) =~= parameter_references(
                        parameters.take(i + 1),
                    ));
                },
            }
            i = i + 1;
        }
        assert(parameters.take(i as int) =~= parameters);
        let ghost refs = possibles_types@.map_values(|v: String| v@);
        match &operation.request_body {
            Some(ReferenceOr::Item(body)) => {
                possibles_types.push(TSTypes::parse_content_map(&body.content));
            },
            Some(ReferenceOr::Reference { reference }) => {
                possibles_types.push(reference.clone());
            },
            None => {},
        }
        assert(possibles_types@.map_values(|v: String| v@) =~= refs + body_types(
            operation.request_body,
        ));
        if fields.len() > 0 {
            let mut interface = String::from_str("{\n\t");
            let ghost items = fields@.map_values(|p: &Parameter| *p);
            let mut j: usize = 0;
            while j < fields.len()
                invariant
                    j <= fields@.len(),
                    items == fields@.map_values(|p: &Parameter| *p),
                    interface@ == "{\n\t"@ + parameters_text(items.take(j as int)),
                decreases fields@.len() - j,
            {
                assert(items.take(j + 1).drop_last() =~= items.take(j as int));
                match fields[j] {
                    Parameter::Query { parameter_data } => {
                        interface.append(parameter_data.name.as_str());
                        interface.append(": ");
                        match &parameter_data.format {
                            ParameterSchemaOrContent::Schema(ref_or_item) => {
                                let text = TSTypes::write_ref_or_schema_as_js_type(ref_or_item);
                                interface.append(text.as_str());
                            },
                            ParameterSchemaOrContent::Content(_content) => {},
                        }
                    },
                    _ => {},
                }
                j = j + 1;
            }
            assert(items.take(j as int) =~= items);
            interface.append("\n}");
            possibles_types.push(interface);
            assert(possibles_types@.map_values(|v: String| v@) =~= query_types(*operation));
        } else {
            assert(possibles_types@.map_values(|v: String| v@) =~= query_types(*operation));
        }
        acc.append("export type ");
        acc.append(id.as_str());
        acc.append("Query = ");
        let joined = join_strings(&possibles_types, " | ");
        acc.append(joined.as_str());
        acc.append("\n\n");
    }

    fn write_return_type(acc: &mut String, operation: &&Operation, id: &String)
        ensures
            final(acc)@ == old(acc)@ + return_type(**operation, id@),
    {
        let ghost start = old(acc)@ + "export type "@ + id@ + "Return = "@;
        acc.append("export type ");
        acc.append(id.as_str());
        acc.append("Return = ");
        let map = &operation.responses.responses;
        let ghost responses = map@;
        let mut i: usize = 0;
        while i < map.len()
            invariant
                i <= responses.len(),
                responses == map@,
                acc@ == start + responses_text(responses.take(i as int)),
            decreases responses.len() - i,
        {
            assert(responses.take(i + 1).drop_last() =~= responses.take(i as int));
            match &map[i] {
                ReferenceOr::Item(response) => {
                    let text = TSTypes::parse_content_map(&response.content);
                    acc.append(text.as_str());
                },
                ReferenceOr::Reference { .. } => {},
            }
            i = i + 1;
        }
        assert(responses.take(i as int) =~= responses);
        acc.append("\n\n");
    }

    pub(crate) fn parse_content_map(content: &Vec<(String, MediaType)>) -> (r: String)
        ensures
            r@ == content_text(content@),
    {
        let json = String::from_str("application/json");
        let mut acc = String::new();
        let mut i: usize = 0;
        while i < content.len()
            invariant
                i <= content@.len(),
                json@ == "application/json"@,
                acc@ == content_text(content@.take(i as int)),
            decreases content@.len() - i,
        {
            assert(content@.take(i + 1).drop_last() =~= content@.take(i as int));
            let (app_type, media) = &content[i];
            if *app_type == json {
                match &media.schema {
                    Some(ReferenceOr::Item(schema)) => {
                        let text = TSTypes::write_schema_as_js_type(schema);
                        acc.append(text.as_str());
                    },
                    Some(ReferenceOr::Reference { reference }) => {
                        let text = TSTypes::get_type_from_reference(reference);
                        acc.append(text.as_str());
                    },
                    None => {},
                }
            }
            i = i + 1;
        }
        assert(content@.take(i as int) =~= content@);
        acc
    }

    fn get_name_from_operation(counter: i64, http_verb: &HTTP_VERB, operation: &&Operation) -> (r:
        String)
        requires
            counter < i64::MAX,
        ensures
            r@ == operation_name(**operation, *http_verb, counter as int),
    {
        match &operation.operation_id {
            Some(value) => value.clone(),
            None => {
                let body = match http_verb {
                    HTTP_VERB::GET => "get",
                    HTTP_VERB::DELETE => "delete",
                    HTTP_VERB::LIST => "list",
                    HTTP_VERB::POST => "post",
                    HTTP_VERB::PUT => "put",
                };
                let counter = counter + 1;
                let mut name = String::from_str(body);
                let number = i64_to_decimal(counter);
                name.append(number.as_str());
                name
            },
        }
    }

    fn generate_components_schemas(export: &mut String, components: &Components)
        ensures
            final(export)@ == old(export)@ + components_text(components.schemas@),
    {
        let ghost start = old(export)@;
        let ghost schemas = components.schemas@;
        let mut i: usize = 0;
        while i < components.schemas.len()
            invariant
                i <= schemas.len(),
                schemas == components.schemas@,
                export@ == start + components_entries(schemas.take(i as int)),
            decreases schemas.len() - i,
        {
            assert(schemas.take(i + 1).drop_last() =~= schemas.take(i as int));
            let (key, value) = &components.schemas[i];
            export.append("export interface ");
            export.append(key.as_str());
            export.append(" ");
            let text = TSTypes::write_ref_or_schema_as_js_type(value);
            export.append(text.as_str());
            i = i + 1;
        }
        assert(schemas.take(i as int) =~= schemas);
        export.append("\n\n");
    }

    pub(crate) fn write_ref_or_schema_as_js_type(ref_or_item: &ReferenceOr<Schema>) -> (r: String)
        ensures
            r@ == js_ref(*ref_or_item),
    {
        match ref_or_item {
            ReferenceOr::Item(schema) => TSTypes::write_schema_as_js_type(schema),
            ReferenceOr::Reference { reference } => TSTypes::get_type_from_reference(reference),
        }
    }

    pub(crate) fn write_boxed_ref_or_schema_as_js_type(ref_or_item: &ReferenceOr<Box<Schema>>) -> (r: String)
        ensures
            r@ == js_boxed(*ref_or_item),
        decreases ref_or_item, 1int,
    {
        match ref_or_item {
            ReferenceOr::Item(schema) => TSTypes::write_schema_as_js_type(schema),
            ReferenceOr::Reference { reference } => TSTypes::get_type_from_reference(reference),
        }
    }

    pub(crate) fn write_schema_as_js_type(schema: &Schema) -> (r: String)
        ensures
            r@ == js_type(*schema),
        decreases schema, 0int,
    {
        match &schema.schema_kind {
            SchemaKind::Type(Type::Array(array)) => {
                let mut arr_type = TSTypes::write_boxed_ref_or_schema_as_js_type(&array.items);
                arr_type.append("[]");
                arr_type
            },
            SchemaKind::Type(Type::String) => String::from_str("string"),
            SchemaKind::Type(Type::Number) => String::from_str("number"),
            SchemaKind::Type(Type::Integer) => String::from_str("number"),
            SchemaKind::Type(Type::Object(object)) => {
                let mut acc = String::from_str("{\n\t");
                let mut fields: Vec<String> = Vec::new();
                let ghost properties = object.properties@;
                let mut i: usize = 0;
                while i < object.properties.len()
                    invariant
                        i <= properties.len(),
                        properties == object.properties@,
                        schema.schema_kind == SchemaKind::Type(Type::Object(*object)),
                        fields@.map_values(|v: String| v@) == js_properties(
                            properties.take(i as int),
                            object.required@,
                        ),
                    decreases properties.len() - i,
                {
                    assert(properties.take(i + 1).subrange(0, i as int) =~= properties.take(i as int));
                    proof {
                        let kind = schema.schema_kind;
                        let typ = kind->Type_0;
                        assert(decreases_to!(*schema => kind));
                        assert(decreases_to!(kind => typ));
                        assert(decreases_to!(typ => typ->Object_0));
                        assert(decreases_to!(*object => object.properties));
                        assert(decreases_to!(object.properties[i as int] => object.properties[i as int].1));

                    }
                    let (key, value) = &object.properties[i];
                    let mut field = key.clone();
                    if TSTypes::contains_name(&object.required, key) {
                        field.append(": ");
                    } else {
                        field.append("?: ");
                    }
                    let text = TSTypes::write_boxed_ref_or_schema_as_js_type(value);
                    field.append(text.as_str());
                    fields.push(field);
                    assert(fields@.map_values(|v: String| v@) =~= js_properties(
                        properties.take(i + 1),
                        object.required@,
                    ));
                    i = i + 1;
                }
                assert(properties.take(i as int) =~= properties);
                let joined = join_strings(&fields, ",\n\t");
                acc.append(joined.as_str());
                acc.append("\n}");
                acc
            },
            SchemaKind::Type(Type::Boolean) => String::from_str("boolean"),
            SchemaKind::OneOf => String::new(),
            SchemaKind::AllOf => String::new(),
            SchemaKind::AnyOf => String::new(),
            SchemaKind::Any => String::from_str("any"),
        }
    }

    /// Whether one of the `required` names is `key`.
    fn contains_name(required: &Vec<String>, key: &String) -> (r: bool)
        ensures
            r == is_required(required@, key@),
    {
        let mut i: usize = 0;
        while i < required.len()
            invariant
                i <= required@.len(),
                forall|j: int| 0 <= j < i ==> (#[trigger] required@[j])@ != key@,
            decreases required@.len() - i,
        {
            if required[i] == *key {
                return true;
            }
            i = i + 1;
        }
        false
    }

    /// The name a reference points to: the part after its last `/`.
    pub(crate) fn get_type_from_reference(reference: &String) -> (r: String)
        ensures
            r@ == last_segment(reference@),
    {
        let s = reference.as_str();
        let n = s.unicode_len();
        let mut start: usize = 0;
        let mut i: usize = 0;
        while i < n
            invariant
                start <= i <= n,
                n == s@.len(),
                s@ == reference@,
                last_segment(s@.take(i as int)) == s@.subrange(start as int, i as int),
            decreases n - i,
        {
            let c = s.get_char(i);
            assert(s@.take(i + 1).drop_last() =~= s@.take(i as int));
            if c == '/' {
                start = i + 1;
                assert(s@.subrange(start as int, start as int) =~= Seq::<char>::empty());
            } else {
                assert(s@.subrange(start as int, i + 1) =~= s@.subrange(start as int, i as int).push(
                    c,
                ));
            }
            i = i + 1;
        }
        assert(s@.take(n as int) =~= s@);
        String::from_str(s.substring_char(start, n))
    }
}

} // verus!
