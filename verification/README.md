# gerc

Closed-world verification for a generator of Rust bindings to C libraries.

The generator takes the C declarations that a scanner found (PARC) and the
evidence that a link analyser gathered for them (LINC), and lowers the selected
declarations to Rust items. Two passes stand on either side of lowering:

- `source_verifier::verify_pre_lowering` checks a request before lowering. The
  evidence must belong to the source package, and every selected declaration,
  with every type that can be reached from it, must lie within the certified
  ABI.
- `projection_verifier::verify_projection` checks the lowered items. It walks
  the items themselves and takes nothing on trust from lowering.

Each pass returns the first refusal that it meets. Its contract says which one
that is.

## Layout

- `src/source.rs`, `src/evidence.rs`, `src/request.rs`, `src/projection.rs`:
  the data.
- `src/source_rules.rs`, `src/projection_rules.rs`: the rules, and the order in
  which a broken one is reported.
- `src/source_verifier.rs`, `src/projection_verifier.rs`: the passes, proved
  against the rules.
- `src/source_laws.rs`, `src/request_laws.rs`, `src/projection_laws.rs`: which
  inputs are accepted, stated without any order, and what holds of them: no
  type alias leads back to itself, no record holds itself by value, an opaque
  record is only ever named.
- `src/error.rs`, `src/position.rs`, `src/powers.rs`, `src/stack.rs`,
  `src/text.rs`: what both passes share.
- `app/`: the adapter from the scanner's and the analyser's types.
