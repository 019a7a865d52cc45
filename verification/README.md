# yaml_mapping_item

Lays out one `key: value` item of a YAML mapping, block or flow, and proves
what it lays out.

- `src/` is the library, verified with Verus. `mapping_item` chooses a layout
  and appends it to a buffer of elements; `scalar` tells which texts stay on one
  line; `gap` tells where comments and the `:` stand between key and value;
  `comments` is the cursor over pending comments; `ast` and `formatter` hold the
  data; `laws` states what holds of every item.
- `tests/` runs the library on concrete items.
- `app/` converts an item of the syntax tree and hands the elements of its
  layout to a formatter.

Three pieces of a layout depend on which comments are pending once what stands
before them has been written. They are `Deferred` elements: the driver writes
up to them, calls the function that each names, and writes what that appends.
