# rwkv_hip

RWKV7 language-model inference for HIP devices, with the logic verified by
[Verus](https://github.com/verus-lang/verus).

The library never talks to a device. It fills a `Stream` with commands: buffers to make, data to
copy, kernels to launch, values to send back. A program around the library plays the commands on a
device and hands the downloaded values to the library again. Contracts therefore say exactly which
commands a call records, which error it returns instead, and what it makes of the values that come
back. Half- and single-precision numbers are held as bit patterns.

## Layout

- `src/` is the verified library.
  - `stream`, `run`, `launch`, `memory`: commands, what filling a stream comes to, kernels and their
    arguments, and what device memory holds after transfers.
  - `tensor`, `buffer`, `buffers`, `shapes`, `scratch`, `footprint`: shapes, strides and handles of
    device tensors, the working memory of a pass, and how much of it there is.
  - `kernels`, `blas`: the checks in front of every kernel and matrix product.
  - `tensor_file`, `convert`: tensors out of a safetensors file.
  - `model`: names and weights, loading, state, chunk plans, the layers of a pass, and the ways to
    run one: `step`, `infer_resident`, `forward`, `forward_async`, `prefill`.
  - `runtime`, `runtime_laws`: inference that keeps its state between calls, in chunks of the padded
    batch, also with a model that was only loaded.
  - `probe`, `prof`, `timing`, `device`, `error`, `text`: hooks into a pass, profiling, device
    selection, errors and their texts.
  - Files named `*_laws`, with `ready` and `forward_success`, hold what is proved of several
    functions together: when a pass succeeds, what a read gives back of a write, how many logits
    come back, that probes change nothing, how the ways to run a pass relate.
- `tests/` runs the library against a small device that moves data and runs no kernel.
- `app/` is the device side: bindings, the player of commands, and what works on floating-point
  numbers.
