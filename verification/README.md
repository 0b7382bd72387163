# bound

Derive a value from a reference to some data and keep the two together in one
value, `Bound<G, L>`, that has no lifetime parameter. The canonical use is a lock
guard taken from an `Arc<RwLock<T>>` that has to be stored or passed around.

The data (the source) is moved to the heap and leaked, and the function that
builds the derived value (the referent) receives a `&'static mut` reference to it.
The source therefore stays valid for the rest of the program; it is never freed.
This keeps every operation safe and verifiable without raw pointers.

Layout:

- `src/bound.rs`: `Bound`, its constructors (`new`, `try_new`), `map`, `try_map`,
  `decompose`, accessors, and the forwarding trait impls, with their contracts.
- `tests/`: behaviour tests.
- `app/`: the asynchronous constructors and maps, built on `new`, `decompose`,
  `map` and `try_map`.
