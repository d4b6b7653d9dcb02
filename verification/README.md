# bevy_define

Keyed component and resource variants for `bevy_ecs`: one Rust type can be stored many
times on an entity (or in the world), once per byte key, each key giving the type its own
component id.

Layout:

- `src/` is the verified library.
  - `key.rs`: byte keys (`DefKey<N>`, `KeyDisplay`).
  - `model.rs`, `register.rs`: the register of `(key, type)` slots and the component id each
    slot got, with its mathematical model; `register_laws.rs` proves what holds across calls.
    The register keeps its slots, ids and per-type lists in vectors and searches them. Its
    lookups are keyed by `std::any::TypeId`, whose bits are private, so no plain value (an
    integer or a byte string) stands for a type; a hash map behind trusted items would need
    a contents model over such plain values, and standing a type by its position in a list
    of the registered types would still need that list searched. The vectors are modelled and verified directly,
    their agreement is the register's type invariant, and `keys` lists the slots in the order
    they were registered.
  - `storage.rs`: storage kinds and the value that differs with them.
  - `cursor.rs`, `query_state.rs`: walking the ids registered for a type, and the state of a
    query over all of a type's keyed variants.
  - `access.rs`: the component reads and writes of a query's access, as the query state
    extends them (`AnyQueryState::update_access`).
  - `ticks.rs`: change detection for keyed resources.
  - `std_calls.rs`, `type_ids.rs`: the std and `bevy_ecs` calls the library trusts.
- `tests/` runs the library on concrete values.
- `app/` holds the `bevy_ecs` adapters: query data (`Def`, `DefMut`, `HasDef`, `AnyDef`),
  system parameters (`DefComponentIdFor`, `DefRes`, `DefResMut`), entity commands, reflection,
  and the world calls that create components; they keep their bookkeeping in the library.
