# dist

The core of a small distributed entity/component runtime, verified with
Verus. A router keeps track of workers and checks on them at a keepalive
interval; workers register with the router and are assigned components;
entities and their components are stored by id in a key-value store; a code
generator writes the include file that ties the generated component readers
together.

## Layout

- `src/` — the verified library.
  - `entity.rs`: ids, component references and entity references.
  - `storage.rs`: the key and the stored form of an entity (bincode's
    format), and the proof that what is read back is what was stored.
  - `router.rs`: the keepalive interval and the router's worker list.
  - `services/`: the router's and the worker's state and the decisions each
    makes on the other's replies; the schedule of an interval future.
  - `codegen.rs`: recording component schemas, snake-case names, the include
    file's text, and the type table of a schema.
  - `schema.rs`: reading a base component's type id from a flatbuffer and
    dispatching on it.
  - `schema_builder.rs`: building a base component with flatbuffers'
    builder, and the proof that the buffer built reads back its type id.
  - `reflection.rs`: reading the root table's name and the objects' names
    from a compiled flatbuffers schema.
  - `macro_traits.rs`: the traits the derive macros implement.
- `app/` — what runs around the library: redis, configuration, files and the
  schema compiler, RPC over tarpc, the derive macros' token generation.
- `tests/` — tests of the library on concrete values.
