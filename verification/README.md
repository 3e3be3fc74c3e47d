# vo_lang

Verified core of the Vo language toolchain and runtime, written in Verus.

`src/` is the library; every function in it carries a contract that Verus proves:

- `instruction`, `value`, `interface`: the bytecode instruction format, value
  metadata and the packed interface slot.
- `bytecode`, `type_table`: function definitions, field layouts and the type table.
- `heap`, `fiber`, `exec`, `gc_scan`: the interpreter's heap model, goroutine
  state, the call/return protocol with deferred calls, panic and recover, and
  root scanning for the garbage collector.
- `port`, `channel`: bounded queues with waiting senders and receivers.
- `bytes`, `regexp`, `value_fmt`: standard-library functions (byte slices, regular
  expressions through the `regex` crate, value printing).
- `text`, `strbuf`: character-level text helpers and string building.
- `vo_sig`, `vo_const`, `vo_types`: the signature, constant and type checkers used
  to validate extern functions.
- `vfs`, `launcher`, `output`, `codegen_error`, `jit`, `wasm`: package resolution,
  input classification, result tags, error messages, the JIT cache.

`app/` holds what touches the file system, the environment, thread-local state,
Rust syntax trees and floating point. `tests/` exercises the library.
