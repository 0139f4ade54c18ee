# backlog-mcp

A Backlog tool server and command-line client, with its logic verified by Verus.

- `src/` is the verified library: the project cache, file-format detection and
  presentation, custom-field conversion, error reporting, identifier and option
  parsing, disk-usage ordering, document-tree lines, tool naming and the
  display helpers. Each public function states its result in its contract, and
  the laws that relate several operations are proof functions beside them.
- `tests/` runs the library on concrete values.
- `app/` holds what the library leaves out: calls to the Backlog API, the
  protocol plumbing, argument parsing, printing, and the few computations on
  floating-point numbers, the local time zone and calendar types.
