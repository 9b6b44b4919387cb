# borrow_print

Prints how ownership flows through the body of a function: which values are moved, copied and
borrowed, when each reference is last used, and which variables go out of scope.

* `src/` is the library, verified with Verus. It takes the tree of a body as plain values and
  gives back what there is to print.
  * `text` reads variable names out of node texts, `hir` is the tree, `points` and `table` are what
    a trace gathers, `event` is what it reports.
  * `semantics` says what visiting each kind of node does; `visitor` does it.
  * `report` is the summary.
  * `laws` and `readable` hold the properties of all traces, as proof functions.
* `tests/` runs the library on small bodies.
* `app/` reads the tree off the compiler and prints. It needs a nightly compiler with its private
  crates and `aquascope`.
