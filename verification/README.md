# ui_core

The foundation of a widget catalogue, as a verified library: the state and the decisions the widgets share, each with a contract proved by Verus.

- `src/` is the library. Keyboard and pointer state (`keyboard`, `pointer`), list navigation (`keynav`), drag-to-reorder (`reorder`), the plan a keyed list reconciles by and the order of its pass (`row_keys`, `reconcile`, `serial`), the press gesture and the scroll gesture's decisions (`press`, `scroll_gesture`), exits in flight, a presence's show and hide decisions and lazy blocks (`presence`, `lazy`), the registries reached by name or id (`names`, `named_overlay`, `link`, `scroll_region`), slots, paint-state precedence and where a box routes an event, a surface's panel placement, overlay placement and the routing decisions of dispatch.
- `tests/` runs the library on concrete values.
- `app/` is the ambient layer around it: the per-thread state the widgets reach without passing it, the conversions from the platform's events, and the geometry, which is floating point.

The Fx-hashed collections come from `rustc-hash`; what the library assumes of them is stated on the few functions in `src/fx.rs` and `src/link.rs` that call them.
