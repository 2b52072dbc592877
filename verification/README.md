# simengine

A plugin-based simulation engine. The library under `src/` is written in
Verus and verified; the `simengine` command under `app/` wraps it with file
and network I/O, the plugin C ABI and the command line.

- `src/manifest`: the manifest model (simulations, instruments, flows, state
  transitions) and its validation, which reports the first issue in a fixed
  order; a law states that validation accepts exactly the well-formed
  manifests.
- `src/runtime`: the state machine of engine and simulation states, the frame
  driver that decides which lifecycle hook runs next, and the host-side store
  through which instrument values flow between simulations.
- `src/network`: framing of messages between engines.
- `src/plugin_api`: the interface version and the decisions of the plugin
  context.
- `src/store.rs`, `src/search.rs`: a name-keyed map and the "first index"
  search that the specifications use.
