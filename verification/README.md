# rust_exercises

A collection of small programs whose logic is written and proved in Verus:
Fibonacci numbers, a four-operation calculator, a number-guessing game,
array and string editing, a generic stack, three sorting algorithms, a
bookshelf, two artifact libraries (one that ignores bad requests, one that
reports them) and two grocery stores (one of ordered rows, shelves and zones,
one of named rows, shelves and zones with a product index).

- `src/` is the verified library. Each module states what its functions do
  over mathematical models (`Seq`, `Set`, `Map`, and a view of each type) and
  proves it; `law_*` proof functions state properties that relate several
  operations, such as returning what was lent restoring a library.
- `tests/` runs the library on concrete values.
- `app/` holds the command-line programs: reading input, printing, and the
  parts that compute with floating-point numbers (shape measures, prices
  times quantities). Run it with the name of a program as first argument.
