# aimt

A verified core for an AI tool-execution plane built on micro-VMs.

`src/` is the library, checked by Verus:

- `types`, `capability`, `profile`, `protocol`, `error`, `tcb`: the shared contract types
  (VM ids and states, capability sets, profiles, requests and results, the error taxonomy,
  the 64-byte task control block).
- `wire`: the 24-byte little-endian frame header and its encoder and decoder, with the
  round-trip law.
- `lifecycle`: the VM state transition table.
- `pool`: the slot table with its free list and generation counters; every operation keeps
  the invariant that the free list holds exactly the `Ready` slots.
- `runtime`: FNV-1a profile ids and the acquire/start/execute/release cycle over any
  `MicroVmBackend`.
- `policy`: the capability gate that clamps limits and refuses requests.
- `snapshot`: content-addressed snapshot manifests (SHA-256 of a NUL-separated canonical text).
- `cli`, `fs_tool`: the argument handling of the guest tools, the bounded read (stated over
  the reads it makes), and the ordering of directory listings.
- `text`: decimal text, substring search.

`app/` holds the programs (policy checker, filesystem tool, echo, probe), the JSON forms of
the types, and the typed request/response frames.
