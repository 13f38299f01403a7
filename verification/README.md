# haybale-pitchfork

A checker for constant-time code: given a function in LLVM bitcode, it
explores its paths with the `haybale` symbolic execution engine and reports
every branch or memory address that may depend on secret data.

## Layout

- `src/` is the library, verified with Verus. Every function states what it
  computes in its contract, and the laws of the library are proof functions
  (named `law_...`).
  - `secret`: secrecy of bitvectors, bit by bit, and how each operation and
    memory access carries it.
  - `llvmtype`, `namemap`, `well_founded`: LLVM types, tables of named
    structs, their sizes, and the check that no struct contains itself.
  - `abstractdata`, `completion`, `describe`: descriptions of function
    arguments (public, secret, pointers, structs, ...), how an
    underspecified description is filled in against an LLVM type, and their
    textual descriptions.
  - `allocation`: the plan that initializes arguments and memory from
    complete descriptions.
  - `default_hook`, `hook_helpers`: the decisions of the function hooks.
  - `outcome`, `path_statistics`, `pitchfork_config`, `analysis`: how paths
    end, what that says about the function, and when to go on.
  - `command_line`: the command line of the checker program.
  - `progress`: what the progress display draws where.
- `app/` is the checker around the library: the engine's backend, the hooks,
  the check of a function, the terminal output and the program's driver.
- `tests/` holds the tests of the library.
