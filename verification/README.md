# qdk_cutensornet

Host-side logic of a cuTensorNet-backed quantum circuit simulator, written in
Verus: the code under `src/` is verified by Verus against its
`requires`/`ensures` contracts. A function that only hands a native result
through (such as capturing the current state) has no `ensures`.

What the library decides, and proves:

- circuits, gate validation and canonical descriptions (`circuit`);
- MPS target shapes, bond caps and realized-layout checks (`mps`);
- execution policies and their presets (`policy`);
- contraction topologies, native paths, slicing and metadata checks
  (`contraction`), and the conversion between portable contraction plans and
  native paths with its round-trip law (`adapter`);
- the lifecycle of native resources — sessions, networks, optimizer objects,
  executables, samplers and replays — as ghost histories whose release order
  and failure reporting are part of each contract. Each native call a
  replay, sampler or executable makes goes through a small verified method
  that hands its arguments on and logs the same arguments in a ghost call
  log, so the contracts can say which calls were made, with what, in which
  order, and that nothing runs past a failed barrier (`session`, `network`,
  `execution`, `sampler`, `replay`). The native library itself is reached
  through traits without contracts: what it answers is not specified;
- shot consumers over sample matrices (`consumer`);
- the seed replay driver's option parsing, tool invocations, corpus
  classification and summaries (`toolchain`, `seed`, `driver`).

The native library is reached only through traits (`SessionApi`,
`ContractionApi`, `ReplayApi`, ...) that a host binds to the real bindings or
to a test double; the tests under `tests/` use such doubles.

`app/` holds what the verifier does not take: the floating-point numerics,
the raw host scratch buffer, the error type with its derived messages, and
the file and process work of the replay driver.
