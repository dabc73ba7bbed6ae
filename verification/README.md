# py_layerd

Layered graph layout requests, the LRD1 wire format and layout results, with
contracts proved by Verus, and the Python extension module around them.

- `src/` is the verified library. Coordinates and sizes are the 64-bit patterns
  of binary64 numbers.
  - `graph`: nodes, edges, what makes a graph of them, and the steps that build
    it in the engine.
  - `wire`, `decode`: LRD1 buffers and how requests are read from them.
  - `request`: checking requests, writing them to the wire, building graphs.
  - `layout`: from what the engine placed to flat arrays and LRD1 buffers.
  - `layout_ext`: what each layout call does before and after the engine runs.
  - `options`: layout options and the names by which they are chosen.
  - `force`: the seeds and the steps of force-directed placement.
  - `error`, `text`, `float_bits`: faults and their reports, text, number
    patterns.
- `app/` is the Python extension module. It runs the layerd engine and does the
  floating-point arithmetic.
- `tests/` runs the library on concrete values.

A layout call has two halves. The first checks the request and says what is left
to do. The caller runs the engine on the graph that the request's steps build.
The second half turns the engine's report into a result.
