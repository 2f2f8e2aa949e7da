# reify_reflect

Moving values between the type level and the value level, with the library
proved correct by Verus.

- **Reflection** (type → value): Peano naturals `S<S<Z>>`, type-level
  booleans and heterogeneous lists reflect to `RuntimeValue`s; type-level
  `Add`, `Mul`, `Lt`, `Not`, `And`, `Or` come with lemmas that their results
  denote the sum, product, comparison and boolean operations.
- **Reification** (value → type): `reify_nat` / `reify_nat2` run a callback
  whose const generic equals a runtime value in `0..=255`; `reify` hands a
  branded token that reflects back to the given value.
- **Derived shapes**: the encoding a derived `Reflect` gives structs and
  enums, and the reading of `#[reflect(skip)]`.
- **Dispatch tables**: the source a `#[reifiable(range = ..)]` attribute
  generates for a trait's const-generic methods, and the reading of the
  attribute's arguments.
- **Pointer graphs**: `Rc<RefCell<T>>` / `Arc<Mutex<T>>` graphs flattened to
  nodes and edges and rebuilt with sharing preserved; a node whose cell is
  in use elsewhere is reported as an error, never a panic.
- **Async traces**: poll events grouped into a step graph and rendered as DOT.

## Layout

- `src/` — the verified library. Every public function is verified; where
  a result rests on a cell's contents, an allocation's address or the clock,
  its contract says only what can be known of it.
- `tests/` — tests of the library on concrete values.
- `app/` — what lives around the library: futures that record their polls,
  dispatch through `&dyn HasModulus`, `Ord`/`Hash`/`Display` contexts built
  from function pointers, the `typenum` bridge, and serde-enabled copies of
  the data types.
