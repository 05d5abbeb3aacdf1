//! An API document: the parts of an OpenAPI 3.0 description that the
//! TypeScript exporters read, in document order.
use vstd::prelude::*;

verus! {

/// A value given in place, or a reference to one described elsewhere.
pub enum ReferenceOr<T> {
    Reference { reference: String },
    Item(T),
}

/// An API document: its paths and its reusable components.
pub struct OpenAPI {
    /// Each path with its item, in document order.
    pub paths: Vec<(String, ReferenceOr<PathItem>)>,
    pub components: Option<Components>,
}

/// The reusable components of a document.
pub struct Components {
    /// Each named schema, in document order.
    pub schemas: Vec<(String, ReferenceOr<Schema>)>,
}

/// The operations of one path.
pub struct PathItem {
    pub get: Option<Operation>,
    pub put: Option<Operation>,
    pub post: Option<Operation>,
    pub delete: Option<Operation>,
}

/// One operation on a path.
pub struct Operation {
    pub operation_id: Option<String>,
    pub parameters: Vec<ReferenceOr<Parameter>>,
    pub request_body: Option<ReferenceOr<RequestBody>>,
    pub responses: Responses,
}

/// The responses of an operation, in document order.
pub struct Responses {
    pub responses: Vec<ReferenceOr<Response>>,
}

/// A response: its content, keyed by media type, in document order.
pub struct Response {
    pub content: Vec<(String, MediaType)>,
}

/// A request body: its content, keyed by media type, in document order.
pub struct RequestBody {
    pub content: Vec<(String, MediaType)>,
}

/// The content of one media type.
pub struct MediaType {
    pub schema: Option<ReferenceOr<Schema>>,
}

/// A parameter of an operation, by where it is given.
pub enum Parameter {
    Query { parameter_data: ParameterData },
    Header { parameter_data: ParameterData },
    Path { parameter_data: ParameterData },
    Cookie { parameter_data: ParameterData },
}

/// The name of a parameter and how its value is described.
pub struct ParameterData {
    pub name: String,
    pub format: ParameterSchemaOrContent,
}

/// A parameter's value: by a schema, or by content keyed by media type.
pub enum ParameterSchemaOrContent {
    Schema(ReferenceOr<Schema>),
    Content(Vec<(String, MediaType)>),
}

/// A schema of the document.
pub struct Schema {
    pub schema_kind: SchemaKind,
}

/// The kind of a schema.
pub enum SchemaKind {
    Type(Type),
    OneOf,
    AllOf,
    AnyOf,
    Any,
}

/// The type of a typed schema.
pub enum Type {
    String,
    Number,
    Integer,
    Object(ObjectType),
    Array(ArrayType),
    Boolean,
}

/// An object type: its properties in document order and its required names.
pub struct ObjectType {
    pub properties: Vec<(String, ReferenceOr<Box<Schema>>)>,
    pub required: Vec<String>,
}

/// An array type: the schema of its items.
pub struct ArrayType {
    pub items: ReferenceOr<Box<Schema>>,
}

} // verus!
