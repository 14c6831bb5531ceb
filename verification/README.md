# jvm

Pieces of a small Java virtual machine, written in Verus: the behaviour of each
function is stated as a `requires`/`ensures` contract over a mathematical model
and proved.

- `src/class_file` reads `.class` files (JVMS chapter 4): a cursor over bytes,
  constant-pool entries, attributes, fields, methods and whole class files, each
  reader proved against a grammar written as spec functions; the text forms of
  entries, attributes and class files.
- `src/vm` holds the virtual machine's class-file layer: its cursor, attributes,
  the run-time constant pool with its checked lookups and `javap`-style listing,
  Java types and method descriptors (with a proof that a parsed descriptor
  renders back to its input), and the launcher's configuration.
- `src/jclass` reads method attributes (`Code`, `Exceptions`,
  `MethodParameters`).
- `src/runtime` holds resolved constant-pool entries and the interpreter's
  control-flow rules: branch targets, method arguments taken from the operand
  stack, and the search for an exception handler.
- `src/text` has the string building blocks the text forms are made of.
- `app/` is the launcher program: it reads the command line, `JAVA_HOME`, the
  working directory and the `release` file, and hands them to the library.
