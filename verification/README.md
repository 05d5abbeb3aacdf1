# typed_api

Generates source text from schema descriptions: TypeScript interfaces,
Protobuf messages and TypeScript encoders from an intermediate representation
of schemas (`ir`), and TypeScript types, an express router and an HTTP client
from an API document (`openapi`).

Every exporter in `src/` is verified with Verus against a specification of
the exact text it writes (or of the error it returns): the specifications are
the `spec` functions beside each exporter, such as `ts_schema`, `pb_message`,
`enc_object` or `types_export`.

- `src/ir`: schemas and the representation that holds them.
- `src/openapi.rs`: the parts of an OpenAPI document that the exporters read.
- `src/exporter`: the exporters and the naming helpers.
- `src/text.rs`: decimal numbers, joins and reference names.
- `app/`: reads an OpenAPI document with `serde_json` and `openapiv3`, and turns
  it into the library's document.
