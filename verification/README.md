# why3_ptree

Parse trees of the WhyML language (the input language of the Why3
verification platform), helpers to build them, and a printer that lays them
out as WhyML source text. The library is written in Verus: the layout that the
printer produces is stated by spec functions and proved for every
well-formed tree; `src/wf_check.rs` tests whether a tree is well-formed.

## Layout

- `src/ptree.rs`, `decl.rs`, `dterm.rs`, `expr.rs`, `ity.rs`, `constant.rs`,
  `number.rs`: the data types of parse trees and constants.
- `src/ptree_helpers.rs`: building trees bottom-up, and top-down with `State`.
- `src/doc.rs`: layout documents (atoms, breaks, boxes) and their meaning.
- `src/mlw_spec.rs`, `term_spec.rs`, `expr_spec.rs`, `decl_spec.rs`,
  `number_spec.rs`: the layout of every node, as spec functions.
- `src/mlw_printer.rs` and the private `print_*.rs` modules: the printers,
  each proved to produce the layout of its spec.
- `src/ident.rs`: attributes and the naming convention of operator symbols,
  with the laws that decoding inverts encoding.
- `src/loc.rs`: source positions, file tags and located warnings.
- `src/big_int.rs`, `lists.rs`, `pp.rs`, `debug.rs`: small utilities.
- `src/print_laws.rs`: what markers and unique dummy locations promise.
- `src/wf_check.rs`: executable tests of the printers' preconditions.
- `app/`: laying documents out with `ocaml_format`, the process-wide tables,
  the environment variable `WHY3MLWPRINTERIDS`, the standard error, and serde
  forms of plain types.
