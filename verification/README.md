# il2cpp_bridge_rs

A bridge to the IL2CPP runtime of Unity games, in two parts.

- `src/` is the verified library. It holds the logic the bridge runs on
  values read from the runtime, with contracts checked by Verus: readable C#
  names for IL2CPP type names, the models of managed arrays, lists and
  dictionaries, the metadata model (types, fields, methods, properties,
  classes) and its C#-like rendering, pairing of property accessors, class
  and method lookups through a class's ancestors, the plan of a metadata
  dump, the symbol and image-base caches, the checks around method calls and
  field access, and the decisions of initialization.
- `app/` is the runtime side: the table of IL2CPP exports, reading the
  metadata out of the running process, thread attachment, invoking managed
  methods, logging, writing the dump to disk, and the wrappers of Unity
  components, whose values are single-precision floats.

`tests/` exercises the library on concrete values.
