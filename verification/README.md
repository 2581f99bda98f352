# openapi_contract

The `OpenAPI` content contract, verified with Verus: whether a JSON document
is a sound `OpenAPI` description (a declared version, `info.title` and
`info.version`, `paths` as an object of templates that begin with `/`,
operations with `responses` where the version requires them, and `$ref`s
that land), and whether it defines the operation a contract is bound to.

- `src/text.rs`: white space, trimming, ASCII case, searching, decimal digits.
- `src/json.rs`: the JSON value the contract reads, and the calls into
  `serde_json` that parse a document and resolve a JSON Pointer in it.
- `src/contract.rs`, `src/stream.rs`: descriptors, issues, results, streams.
- `src/operation.rs`: the bound operation, parsed from and written back to
  `POST /orders` or `placeOrder`.
- `src/description.rs`: what a description declares, its title and operations.
- `src/openapi.rs`: the contract itself: identify, validate, load.
- `src/laws.rs`: what holds across these functions.
