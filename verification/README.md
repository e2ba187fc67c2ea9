# lance_namespace_ffi

Namespace calls of a Lance client for C callers, verified with Verus.

A call takes its arguments from C, sends a request to a Lance namespace service, and hands the
outcome back as a status or a pointer, out-parameters and the last error. The library proves what
each call sends, that it sends nothing where an argument or an earlier step fails, what it makes of
every reply, and what it hands back. It also converts Arrow schemas from their JSON form, nested
types included, and proves which schemas convert and to what.

- `src/` is the library. `exports` holds the calls; `list_tables`, `tables` and `schema` hold their
  logic; `call`, `tsv` and `json` read arguments, headers, options and schemas; `arrow_schema`,
  `error`, `requests` and `text` are what these share.
- `tests/` runs the library with the crates it calls.
- `app/` is the C interface: pointers, the runtime, the REST client and the dataset loader. It also
  needs the crates `lance` and `lance-namespace-impls`.

The functions marked `external_body` and the `assume_specification` items state what is relied on
of `arrow`, `lance-core`, `serde_json` and the standard library. The doc comment of each names the
function and says what is claimed of it.
