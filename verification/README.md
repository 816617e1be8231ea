# graphoid

Core pieces of the Graphoid language, written in Verus with their behaviour
stated in contracts and proved:

- `arena`, `node`, `execution_graph`: arena-allocated graph nodes with typed
  edges, the graph that holds a program.
- `token`, `ast`, `parser`: the token stream and a recursive descent parser
  that builds the syntax tree; its contracts fix the result for a set of
  simple shapes (lone operands, one binary or prefix operator, `**` chains,
  simple suffixes, simple function declarations, empty and one-element list,
  map and `match` literals, `graph {}`, `tree {}`, block conditionals,
  `raise`, parentheses) and
  that every step reads forward, but not the tree for every program.
- `converter`: the translation of a syntax tree into the execution graph;
  its contracts say which node, properties and edges every construct gets,
  that a statement's or expression's node lies in the arena it was built in,
  that function, method and lambda bodies get an arena of their own holding
  the body's statements, and where a binary expression's operands go.  They
  do not follow every nested node into its arena.
- `namespace`: the graph-shaped chain of scopes and its lookup rules.
- `ffi`: C type layout, resource limits, a parser for C declarations and the
  names under which shared libraries are looked up.
- `crypto`, `net`, `modules`: the native standard-library functions that
  compute (hashing, encodings, authenticated encryption, signatures, key
  exchange, byte helpers) and the module tables.
- `text`, `error`: small string helpers and error values.

The calls into the cryptography, encoding and random-number crates stand
behind small trusted wrappers whose contracts name what the crate computes.

`app/` holds the `gr` command and the parts that do I/O: TCP sockets, the
clock, the environment, the terminal and loading shared libraries.
